//! Laws of what is reported: the counters and gauges of a comparison, of what
//! waits, and of an ingested payload, and the warnings about drifting queues.

use crate::channel::{BlockInfo, Channel, ChannelId, ChannelView};
use crate::comparison;
use crate::comparison::{L2MismatchReason, L2Pair};
use crate::error::ParityError;
use crate::l2_queue;
use crate::l2_queue::L2Queues;
use crate::metrics::{Counter, Gauge, MetricEvent};
use crate::monitor;
use crate::normalized::NormalizedBatch;
use crate::parity_laws;
use crate::parity_state::{ParitySide, ParityState, StateView};
use crate::side_state::{IngestedPayload, SideView};
use vstd::prelude::*;

verus! {

/// What a counter gains by metric updates.
pub open spec fn gained(updates: Seq<MetricEvent>, counter: Counter) -> nat
    decreases updates.len(),
{
    if updates.len() == 0 {
        0
    } else {
        let earlier = gained(updates.drop_last(), counter);
        match updates.last() {
            MetricEvent::Increment(named, amount) => if named == counter {
                earlier + amount as nat
            } else {
                earlier
            },
            _ => earlier,
        }
    }
}

/// The value that metric updates leave on a gauge, if they set it.
pub open spec fn left_on(updates: Seq<MetricEvent>, gauge: Gauge) -> Option<u64>
    decreases updates.len(),
{
    if updates.len() == 0 {
        None
    } else {
        match updates.last() {
            MetricEvent::SetGauge(named, value) => if named == gauge {
                Some(value)
            } else {
                left_on(updates.drop_last(), gauge)
            },
            _ => left_on(updates.drop_last(), gauge),
        }
    }
}

/// The value of a gauge after an earlier value and a later one, if there is one.
pub open spec fn latest(earlier: Option<u64>, later: Option<u64>) -> Option<u64> {
    match later {
        Some(value) => Some(value),
        None => earlier,
    }
}

/// What counters gain by updates that follow each other adds up.
pub proof fn lemma_gained_join(left: Seq<MetricEvent>, right: Seq<MetricEvent>, counter: Counter)
    ensures
        gained(left + right, counter) == gained(left, counter) + gained(right, counter),
    decreases right.len(),
{
    if right.len() == 0 {
        assert(left + right =~= left);
    } else {
        lemma_gained_join(left, right.drop_last(), counter);
        assert((left + right).drop_last() =~= left + right.drop_last());
        assert((left + right).last() == right.last());
    }
}

/// Of updates that follow each other the later ones decide a gauge.
pub proof fn lemma_left_on_join(left: Seq<MetricEvent>, right: Seq<MetricEvent>, gauge: Gauge)
    ensures
        left_on(left + right, gauge) == latest(left_on(left, gauge), left_on(right, gauge)),
    decreases right.len(),
{
    if right.len() == 0 {
        assert(left + right =~= left);
    } else {
        lemma_left_on_join(left, right.drop_last(), gauge);
        assert((left + right).drop_last() =~= left + right.drop_last());
        assert((left + right).last() == right.last());
    }
}

/// What one update does to counters and gauges.
pub proof fn lemma_one_update(update: MetricEvent, counter: Counter, gauge: Gauge)
    ensures
        gained(seq![update], counter) == (match update {
            MetricEvent::Increment(named, amount) => if named == counter {
                amount as nat
            } else {
                0
            },
            _ => 0nat,
        }),
        left_on(seq![update], gauge) == (match update {
            MetricEvent::SetGauge(named, value) => if named == gauge {
                Some(value)
            } else {
                None
            },
            _ => None::<u64>,
        }),
{
    let updates = seq![update];
    assert(updates.drop_last() =~= Seq::empty());
    assert(gained(updates.drop_last(), counter) == 0);
    assert(left_on(updates.drop_last(), gauge) is None);
    assert(updates.last() == update);
}

/// One update behind others.
pub proof fn lemma_update_push(
    updates: Seq<MetricEvent>,
    update: MetricEvent,
    counter: Counter,
    gauge: Gauge,
)
    ensures
        gained(updates.push(update), counter) == gained(updates, counter) + (match update {
            MetricEvent::Increment(named, amount) => if named == counter {
                amount as nat
            } else {
                0
            },
            _ => 0nat,
        }),
        left_on(updates.push(update), gauge) == (match update {
            MetricEvent::SetGauge(named, value) => if named == gauge {
                Some(value)
            } else {
                left_on(updates, gauge)
            },
            _ => left_on(updates, gauge),
        }),
{
    assert(updates.push(update).drop_last() =~= updates);
    assert(updates.push(update).last() == update);
}

/// The number 1 where something holds, else 0.
pub open spec fn one_if(holds: bool) -> nat {
    if holds {
        1
    } else {
        0
    }
}

/// A value where something holds, else none.
pub open spec fn given_if(holds: bool, value: u64) -> Option<u64> {
    if holds {
        Some(value)
    } else {
        None
    }
}

/// What the comparison of a pair of blocks reports. A match adds one to the
/// matches, and to the matches with transactions where there are any. A mismatch
/// adds one to the mismatches and one to those of its reason: differing L1
/// origins, else differing transaction counts, else a differing hash. The gauges
/// of matches or those of mismatches hold the timestamp and the L1 block. No
/// other counter or gauge changes.
pub proof fn law_compared_pair_is_reported(
    pair: L2Pair,
    l1_block: u64,
    counter: Counter,
    gauge: Gauge,
)
    ensures
        ({
            let updates = pair.events(l1_block);
            let same = pair.canonical.same_content(pair.shadow);
            let same_origin = pair.canonical.epoch_num == pair.shadow.epoch_num;
            let same_count = pair.canonical.tx_hashes@.len() == pair.shadow.tx_hashes@.len();
            &&& gained(updates, counter) == (match counter {
                Counter::L2BlockMatches => one_if(same),
                Counter::L2BlockNonEmptyMatches => one_if(
                    same && pair.canonical.tx_hashes@.len() > 0,
                ),
                Counter::L2BlockMismatches => one_if(!same),
                Counter::L2BlockOriginMismatches => one_if(!same && !same_origin),
                Counter::L2BlockTxCountMismatches => one_if(!same && same_origin && !same_count),
                Counter::L2BlockTxHashMismatches => one_if(!same && same_origin && same_count),
                _ => 0nat,
            })
            &&& left_on(updates, gauge) == (match gauge {
                Gauge::LastL2BlockMatchTimestamp => given_if(same, pair.timestamp),
                Gauge::LastL2BlockMatchL1Block => given_if(same, l1_block),
                Gauge::LastL2BlockMismatchTimestamp => given_if(!same, pair.timestamp),
                Gauge::LastL2BlockMismatchL1Block => given_if(!same, l1_block),
                _ => None::<u64>,
            })
        }),
{
    let updates = pair.events(l1_block);
    let e = Seq::<MetricEvent>::empty();
    assert(gained(e, counter) == 0);
    assert(left_on(e, gauge) is None);
    if pair.canonical.same_content(pair.shadow) {
        let m1 = MetricEvent::Increment(Counter::L2BlockMatches, 1);
        let m2 = MetricEvent::Increment(Counter::L2BlockNonEmptyMatches, 1);
        let g1 = MetricEvent::SetGauge(Gauge::LastL2BlockMatchTimestamp, pair.timestamp);
        let g2 = MetricEvent::SetGauge(Gauge::LastL2BlockMatchL1Block, l1_block);
        let counted = if pair.canonical.tx_hashes@.len() > 0 {
            e.push(m1).push(m2)
        } else {
            e.push(m1)
        };
        assert(updates =~= counted.push(g1).push(g2));
        lemma_update_push(e, m1, counter, gauge);
        lemma_update_push(e.push(m1), m2, counter, gauge);
        lemma_update_push(counted, g1, counter, gauge);
        lemma_update_push(counted.push(g1), g2, counter, gauge);
    } else {
        let m1 = MetricEvent::Increment(Counter::L2BlockMismatches, 1);
        let g1 = MetricEvent::SetGauge(Gauge::LastL2BlockMismatchTimestamp, pair.timestamp);
        let g2 = MetricEvent::SetGauge(Gauge::LastL2BlockMismatchL1Block, l1_block);
        let m2 = MetricEvent::Increment(pair.reason().counter_of(), 1);
        assert(updates =~= e.push(m1).push(g1).push(g2).push(m2));
        lemma_update_push(e, m1, counter, gauge);
        lemma_update_push(e.push(m1), g1, counter, gauge);
        lemma_update_push(e.push(m1).push(g1), g2, counter, gauge);
        lemma_update_push(e.push(m1).push(g1).push(g2), m2, counter, gauge);
    }
}

/// What the comparison of a pair of batches reports: one match or one
/// divergence, with the L1 block as the latest one of its kind.
pub proof fn law_compared_batches_are_reported(
    is_match: bool,
    l1_block: u64,
    counter: Counter,
    gauge: Gauge,
)
    ensures
        ({
            let updates = comparison::batch_pair_events(is_match, l1_block);
            &&& gained(updates, counter) == (match counter {
                Counter::Matches => one_if(is_match),
                Counter::Divergences => one_if(!is_match),
                _ => 0nat,
            })
            &&& left_on(updates, gauge) == (match gauge {
                Gauge::LastMatchL1Block => given_if(is_match, l1_block),
                Gauge::LastDivergenceL1Block => given_if(!is_match, l1_block),
                _ => None::<u64>,
            })
        }),
{
    let updates = comparison::batch_pair_events(is_match, l1_block);
    let e = Seq::<MetricEvent>::empty();
    assert(gained(e, counter) == 0);
    assert(left_on(e, gauge) is None);
    assert(updates =~= e.push(updates[0]).push(updates[1]));
    lemma_update_push(e, updates[0], counter, gauge);
    lemma_update_push(e.push(updates[0]), updates[1], counter, gauge);
}

proof fn lemma_batch_events_gain(
    canonical: Seq<NormalizedBatch>,
    shadow: Seq<NormalizedBatch>,
    count: nat,
    l1_block: u64,
    counter: Counter,
)
    ensures
        ({
            let updates = comparison::batch_events(canonical, shadow, count, l1_block);
            let matches = comparison::batch_matches(canonical, shadow, count);
            &&& matches <= count
            &&& gained(updates, counter) == (match counter {
                Counter::Matches => matches,
                Counter::Divergences => (count - matches) as nat,
                _ => 0nat,
            })
            &&& left_on(updates, Gauge::LastMatchL1Block) == given_if(matches > 0, l1_block)
            &&& left_on(updates, Gauge::LastDivergenceL1Block) == given_if(
                matches < count,
                l1_block,
            )
        }),
    decreases count,
{
    if count > 0 {
        let fewer = (count - 1) as nat;
        let is_match = canonical[count - 1]@ == shadow[count - 1]@;
        let earlier = comparison::batch_events(canonical, shadow, fewer, l1_block);
        let last = comparison::batch_pair_events(is_match, l1_block);
        lemma_batch_events_gain(canonical, shadow, fewer, l1_block, counter);
        lemma_gained_join(earlier, last, counter);
        lemma_left_on_join(earlier, last, Gauge::LastMatchL1Block);
        lemma_left_on_join(earlier, last, Gauge::LastDivergenceL1Block);
        law_compared_batches_are_reported(is_match, l1_block, counter, Gauge::LastMatchL1Block);
        law_compared_batches_are_reported(
            is_match,
            l1_block,
            counter,
            Gauge::LastDivergenceL1Block,
        );
    }
}

proof fn lemma_l2_events_gain(pairs: Seq<L2Pair>, l1_block: u64, counter: Counter)
    ensures
        ({
            let updates = comparison::l2_events(pairs, l1_block);
            &&& counter == Counter::L2BlockMatches ==> gained(updates, counter)
                == comparison::l2_matches(pairs)
            &&& counter == Counter::L2BlockMismatches ==> gained(updates, counter)
                == comparison::l2_mismatches(pairs)
            &&& gained(updates, Counter::L2BlockOriginMismatches) + gained(
                updates,
                Counter::L2BlockTxCountMismatches,
            ) + gained(updates, Counter::L2BlockTxHashMismatches) == comparison::l2_mismatches(
                pairs,
            )
            &&& gained(updates, Counter::L2BlockNonEmptyMatches) <= comparison::l2_matches(pairs)
            &&& left_on(updates, Gauge::LastL2BlockMatchL1Block) == given_if(
                comparison::l2_matches(pairs) > 0,
                l1_block,
            )
            &&& left_on(updates, Gauge::LastL2BlockMismatchL1Block) == given_if(
                comparison::l2_mismatches(pairs) > 0,
                l1_block,
            )
        }),
    decreases pairs.len(),
{
    if pairs.len() > 0 {
        let earlier = comparison::l2_events(pairs.drop_last(), l1_block);
        let last = pairs.last().events(l1_block);
        lemma_l2_events_gain(pairs.drop_last(), l1_block, counter);
        lemma_gained_join(earlier, last, counter);
        lemma_gained_join(earlier, last, Counter::L2BlockOriginMismatches);
        lemma_gained_join(earlier, last, Counter::L2BlockTxCountMismatches);
        lemma_gained_join(earlier, last, Counter::L2BlockTxHashMismatches);
        lemma_gained_join(earlier, last, Counter::L2BlockNonEmptyMatches);
        lemma_left_on_join(earlier, last, Gauge::LastL2BlockMatchL1Block);
        lemma_left_on_join(earlier, last, Gauge::LastL2BlockMismatchL1Block);
        law_compared_pair_is_reported(
            pairs.last(),
            l1_block,
            counter,
            Gauge::LastL2BlockMatchL1Block,
        );
        law_compared_pair_is_reported(
            pairs.last(),
            l1_block,
            Counter::L2BlockOriginMismatches,
            Gauge::LastL2BlockMismatchL1Block,
        );
        law_compared_pair_is_reported(
            pairs.last(),
            l1_block,
            Counter::L2BlockTxCountMismatches,
            Gauge::LastL2BlockMismatchL1Block,
        );
        law_compared_pair_is_reported(
            pairs.last(),
            l1_block,
            Counter::L2BlockTxHashMismatches,
            Gauge::LastL2BlockMismatchL1Block,
        );
        law_compared_pair_is_reported(
            pairs.last(),
            l1_block,
            Counter::L2BlockNonEmptyMatches,
            Gauge::LastL2BlockMismatchL1Block,
        );
    }
}

proof fn lemma_other_counters(pairs: Seq<L2Pair>, l1_block: u64, counter: Counter)
    requires
        counter == Counter::Matches || counter == Counter::Divergences,
    ensures
        gained(comparison::l2_events(pairs, l1_block), counter) == 0,
    decreases pairs.len(),
{
    if pairs.len() > 0 {
        let earlier = comparison::l2_events(pairs.drop_last(), l1_block);
        let last = pairs.last().events(l1_block);
        lemma_other_counters(pairs.drop_last(), l1_block, counter);
        lemma_gained_join(earlier, last, counter);
        law_compared_pair_is_reported(pairs.last(), l1_block, counter, Gauge::Aligned);
    }
}

/// The counters of a comparison agree with its counts: matches and divergences
/// of batches, matches and mismatches of blocks, each mismatch under exactly one
/// reason.
pub proof fn law_counters_agree_with_counts(state: StateView, l1_block: u64)
    requires
        state.canonical.batches.len() <= usize::MAX,
        state.l2_pairs().len() <= usize::MAX,
    ensures
        ({
            let updates = state.compare_events(l1_block);
            let stats = state.compare_stats();
            &&& gained(updates, Counter::Matches) == stats.matches
            &&& gained(updates, Counter::Divergences) == stats.divergences
            &&& gained(updates, Counter::L2BlockMatches) == stats.l2_block_matches
            &&& gained(updates, Counter::L2BlockMismatches) == stats.l2_block_mismatches
            &&& gained(updates, Counter::L2BlockOriginMismatches) + gained(
                updates,
                Counter::L2BlockTxCountMismatches,
            ) + gained(updates, Counter::L2BlockTxHashMismatches) == stats.l2_block_mismatches
            &&& gained(updates, Counter::L2BlockNonEmptyMatches) <= stats.l2_block_matches
            &&& state.divergences(l1_block).len() == stats.divergences + stats.l2_block_mismatches
        }),
{
    let pairs = state.l2_pairs();
    comparison::lemma_l2_pairs_counted(pairs);
    parity_laws::law_every_divergence_is_recorded(state, l1_block);
    lemma_batch_gain(state, l1_block, Counter::Matches);
    lemma_batch_gain(state, l1_block, Counter::Divergences);
    lemma_batch_gain(state, l1_block, Counter::L2BlockMatches);
    lemma_batch_gain(state, l1_block, Counter::L2BlockMismatches);
    lemma_batch_gain(state, l1_block, Counter::L2BlockOriginMismatches);
    lemma_batch_gain(state, l1_block, Counter::L2BlockTxCountMismatches);
    lemma_batch_gain(state, l1_block, Counter::L2BlockTxHashMismatches);
    lemma_batch_gain(state, l1_block, Counter::L2BlockNonEmptyMatches);
    lemma_other_counters(pairs, l1_block, Counter::Matches);
    lemma_other_counters(pairs, l1_block, Counter::Divergences);
    lemma_l2_events_gain(pairs, l1_block, Counter::L2BlockMatches);
    lemma_l2_events_gain(pairs, l1_block, Counter::L2BlockMismatches);
}

proof fn lemma_batch_gain(state: StateView, l1_block: u64, counter: Counter)
    ensures
        state.batch_matches() <= state.batch_pairs(),
        gained(state.compare_events(l1_block), counter) == (match counter {
            Counter::Matches => state.batch_matches(),
            Counter::Divergences => (state.batch_pairs() - state.batch_matches()) as nat,
            _ => 0nat,
        }) + gained(comparison::l2_events(state.l2_pairs(), l1_block), counter),
{
    lemma_batch_events_gain(
        state.canonical.batches,
        state.shadow.batches,
        state.batch_pairs(),
        l1_block,
        counter,
    );
    lemma_gained_join(
        comparison::batch_events(
            state.canonical.batches,
            state.shadow.batches,
            state.batch_pairs(),
            l1_block,
        ),
        comparison::l2_events(state.l2_pairs(), l1_block),
        counter,
    );
}

/// The timestamp is the smallest one that has a queue.
pub open spec fn smallest_key(queues: L2Queues, timestamp: u64) -> bool {
    queues.contains_key(timestamp) && forall|t: u64| #[trigger]
        queues.contains_key(t) ==> timestamp <= t
}

/// The oldest waiting block has the smallest timestamp that has a queue; there is
/// none exactly if there are no queues.
pub proof fn law_oldest_is_the_smallest_timestamp(queues: L2Queues)
    ensures
        l2_queue::oldest(queues) is Some ==> smallest_key(queues, l2_queue::oldest(queues)->0),
        l2_queue::oldest(queues) is None <==> forall|t: u64| !queues.contains_key(t),
{
    if l2_queue::oldest(queues) is Some {
        assert(l2_queue::is_oldest(queues, l2_queue::oldest(queues)->0));
    } else if exists|t: u64| queues.contains_key(t) {
        let t = choose|t: u64| queues.contains_key(t);
        lemma_some_oldest(queues, t);
    }
}

proof fn lemma_some_oldest(queues: L2Queues, timestamp: u64)
    requires
        queues.contains_key(timestamp),
    ensures
        exists|t: u64| l2_queue::is_oldest(queues, t),
    decreases timestamp,
{
    if !l2_queue::is_oldest(queues, timestamp) {
        let t = choose|t: u64| #[trigger] queues.contains_key(t) && t < timestamp;
        lemma_some_oldest(queues, t);
    }
}

/// The gauges that report what waits hold the queue lengths of both sides, the
/// absolute differences between them, and the oldest waiting timestamps, where a
/// side without waiting blocks has 0. Nothing is counted.
pub proof fn law_pending_gauges_show_what_waits(state: StateView, gauge: Gauge, counter: Counter)
    requires
        state.canonical.batches.len() <= u64::MAX,
        state.shadow.batches.len() <= u64::MAX,
        l2_queue::block_total(state.canonical.l2_blocks) <= usize::MAX,
        l2_queue::block_total(state.shadow.l2_blocks) <= usize::MAX,
    ensures
        ({
            let canonical = state.canonical.batches.len() as int;
            let shadow = state.shadow.batches.len() as int;
            let canonical_l2 = l2_queue::block_total(state.canonical.l2_blocks) as int;
            let shadow_l2 = l2_queue::block_total(state.shadow.l2_blocks) as int;
            let updates = state.pending_events();
            &&& gained(updates, counter) == 0
            &&& left_on(updates, Gauge::CanonicalPendingBatches) == Some(canonical as u64)
            &&& left_on(updates, Gauge::ShadowPendingBatches) == Some(shadow as u64)
            &&& left_on(updates, Gauge::PendingBatchDelta) == Some(
                (if canonical < shadow {
                    shadow - canonical
                } else {
                    canonical - shadow
                }) as u64,
            )
            &&& left_on(updates, Gauge::CanonicalPendingL2Blocks) == Some(canonical_l2 as u64)
            &&& left_on(updates, Gauge::ShadowPendingL2Blocks) == Some(shadow_l2 as u64)
            &&& left_on(updates, Gauge::PendingL2BlockDelta) == Some(
                (if canonical_l2 < shadow_l2 {
                    shadow_l2 - canonical_l2
                } else {
                    canonical_l2 - shadow_l2
                }) as u64,
            )
            &&& left_on(updates, Gauge::OldestUnmatchedCanonicalL2Timestamp) == Some(
                oldest_or_zero(state.canonical.l2_blocks),
            )
            &&& left_on(updates, Gauge::OldestUnmatchedShadowL2Timestamp) == Some(
                oldest_or_zero(state.shadow.l2_blocks),
            )
            &&& gauge == Gauge::Aligned || gauge == Gauge::Enabled || gauge == Gauge::LatestL1Block
                ==> left_on(updates, gauge) is None
        }),
{
    lemma_pending(state, Gauge::CanonicalPendingBatches, counter);
    lemma_pending(state, Gauge::ShadowPendingBatches, counter);
    lemma_pending(state, Gauge::PendingBatchDelta, counter);
    lemma_pending(state, Gauge::CanonicalPendingL2Blocks, counter);
    lemma_pending(state, Gauge::ShadowPendingL2Blocks, counter);
    lemma_pending(state, Gauge::PendingL2BlockDelta, counter);
    lemma_pending(state, Gauge::OldestUnmatchedCanonicalL2Timestamp, counter);
    lemma_pending(state, Gauge::OldestUnmatchedShadowL2Timestamp, counter);
    lemma_pending(state, gauge, counter);
    law_oldest_is_the_smallest_timestamp(state.canonical.l2_blocks);
    law_oldest_is_the_smallest_timestamp(state.shadow.l2_blocks);
    lemma_smallest_is_chosen(state.canonical.l2_blocks);
    lemma_smallest_is_chosen(state.shadow.l2_blocks);
}

/// The smallest timestamp that has a queue, or 0 without queues.
pub open spec fn oldest_or_zero(queues: L2Queues) -> u64 {
    if exists|t: u64| smallest_key(queues, t) {
        choose|t: u64| smallest_key(queues, t)
    } else {
        0
    }
}

proof fn lemma_smallest_is_chosen(queues: L2Queues)
    ensures
        oldest_or_zero(queues) == (match l2_queue::oldest(queues) {
            Some(timestamp) => timestamp,
            None => 0,
        }),
{
    law_oldest_is_the_smallest_timestamp(queues);
    match l2_queue::oldest(queues) {
        Some(timestamp) => {
            assert(smallest_key(queues, timestamp));
            let chosen = oldest_or_zero(queues);
            assert(smallest_key(queues, chosen));
            assert(queues.contains_key(chosen) && queues.contains_key(timestamp));
        },
        None => {},
    }
}

/// The gauges that report what waits, one update each.
pub proof fn lemma_pending(state: StateView, gauge: Gauge, counter: Counter)
    ensures
        ({
            let updates = state.pending_events();
            &&& updates.len() == 8
            &&& gained(updates, counter) == 0
            &&& left_on(updates, gauge) == (match gauge {
                Gauge::CanonicalPendingBatches => Some(updates[0]->SetGauge_1),
                Gauge::ShadowPendingBatches => Some(updates[1]->SetGauge_1),
                Gauge::PendingBatchDelta => Some(updates[2]->SetGauge_1),
                Gauge::CanonicalPendingL2Blocks => Some(updates[3]->SetGauge_1),
                Gauge::ShadowPendingL2Blocks => Some(updates[4]->SetGauge_1),
                Gauge::PendingL2BlockDelta => Some(updates[5]->SetGauge_1),
                Gauge::OldestUnmatchedCanonicalL2Timestamp => Some(updates[6]->SetGauge_1),
                Gauge::OldestUnmatchedShadowL2Timestamp => Some(updates[7]->SetGauge_1),
                _ => None::<u64>,
            })
        }),
{
    let updates = state.pending_events();
    assert(updates.take(0) =~= Seq::empty());
    assert(gained(updates.take(0), counter) == 0);
    assert(left_on(updates.take(0), gauge) is None);
    lemma_take_push(updates, 0, counter, gauge);
    lemma_take_push(updates, 1, counter, gauge);
    lemma_take_push(updates, 2, counter, gauge);
    lemma_take_push(updates, 3, counter, gauge);
    lemma_take_push(updates, 4, counter, gauge);
    lemma_take_push(updates, 5, counter, gauge);
    lemma_take_push(updates, 6, counter, gauge);
    lemma_take_push(updates, 7, counter, gauge);
    assert(updates.take(8) =~= updates);
}

proof fn lemma_take_push(updates: Seq<MetricEvent>, i: int, counter: Counter, gauge: Gauge)
    requires
        0 <= i < updates.len(),
    ensures
        gained(updates.take(i + 1), counter) == gained(updates.take(i), counter) + (
        match updates[i] {
            MetricEvent::Increment(named, amount) => if named == counter {
                amount as nat
            } else {
                0
            },
            _ => 0nat,
        }),
        left_on(updates.take(i + 1), gauge) == (match updates[i] {
            MetricEvent::SetGauge(named, value) => if named == gauge {
                Some(value)
            } else {
                left_on(updates.take(i), gauge)
            },
            _ => left_on(updates.take(i), gauge),
        }),
{
    assert(updates.take(i + 1) =~= updates.take(i).push(updates[i]));
    lemma_update_push(updates.take(i), updates[i], counter, gauge);
}

/// Alignment is known once something was compared. The last comparison of blocks
/// decides where there was one, else that of batches. The state is aligned
/// exactly if that comparison matched and nothing of its kind waits on either
/// side.
pub proof fn law_alignment_needs_a_match_and_no_lag(state: StateView)
    ensures
        state.alignment() is None <==> state.last_l2_result is None && state.last_result is None,
        state.last_l2_result is Some ==> (state.alignment() == Some(true) <==> (
        state.last_l2_result == Some(true) && l2_queue::block_total(state.canonical.l2_blocks) == 0
            && l2_queue::block_total(state.shadow.l2_blocks) == 0)),
        state.last_l2_result is None && state.last_result is Some ==> (state.alignment() == Some(
            true,
        ) <==> (state.last_result == Some(true) && state.canonical.batches.len() == 0
            && state.shadow.batches.len() == 0)),
{
}

/// The alignment gauge is set exactly if the alignment is known, to 1 if the
/// state is aligned and else to 0, and nothing else is reported with it.
pub proof fn law_alignment_gauge(state: StateView, counter: Counter, gauge: Gauge)
    ensures
        ({
            let updates = state.alignment_events();
            &&& gained(updates, counter) == 0
            &&& gauge == Gauge::Aligned ==> left_on(updates, gauge) == (match state.alignment() {
                Some(true) => Some(1u64),
                Some(false) => Some(0u64),
                None => None::<u64>,
            })
            &&& gauge != Gauge::Aligned ==> left_on(updates, gauge) is None
        }),
{
    let updates = state.alignment_events();
    if updates.len() > 0 {
        lemma_one_update(updates[0], counter, gauge);
        assert(updates =~= seq![updates[0]]);
    }
}

/// A drift check warns exactly if the queues of batches differ in length by at
/// least ten and by another number than was reported last. The warning holds the
/// L1 block, the difference and both lengths. The difference is then the one
/// reported last; a difference below ten is forgotten.
pub proof fn law_drift_check(state: StateView, l1_block: u64)
    requires
        state.canonical.batches.len() <= usize::MAX,
        state.shadow.batches.len() <= usize::MAX,
    ensures
        ({
            let canonical = state.canonical.batches.len() as int;
            let shadow = state.shadow.batches.len() as int;
            let drift = if canonical < shadow {
                shadow - canonical
            } else {
                canonical - shadow
            };
            let warning = state.drift_warning(l1_block);
            let after = state.after_drift_check();
            &&& warning is Some <==> drift >= 10 && drift != state.last_reported_pending_drift
            &&& warning is Some ==> warning->0.l1_block == l1_block && warning->0.drift == drift
                && warning->0.canonical_pending == canonical && warning->0.shadow_pending == shadow
            &&& after.last_reported_pending_drift == (if drift >= 10 {
                drift
            } else {
                0
            })
            &&& after.canonical == state.canonical
            &&& after.shadow == state.shadow
            &&& after.last_result == state.last_result
            &&& after.last_l2_result == state.last_l2_result
        }),
{
}

/// Each side has its own counters: what one side takes in is never counted for
/// the other, and payloads, channels, batches and blocks are counted apart.
pub proof fn law_sides_are_counted_apart(side: ParitySide)
    ensures
        side.payload_counter() == (if side == ParitySide::Canonical {
            Counter::CanonicalPayloads
        } else {
            Counter::ShadowPayloads
        }),
        side.complete_channel_counter() == (if side == ParitySide::Canonical {
            Counter::CanonicalCompleteChannels
        } else {
            Counter::ShadowCompleteChannels
        }),
        side.batch_counter() == (if side == ParitySide::Canonical {
            Counter::CanonicalBatches
        } else {
            Counter::ShadowBatches
        }),
        side.l2_block_counter() == (if side == ParitySide::Canonical {
            Counter::CanonicalL2Blocks
        } else {
            Counter::ShadowL2Blocks
        }),
{
}

/// What an ingested payload adds to the counters: where channels decoded, their
/// number, the number of batches and the number of blocks, on the counters of
/// the side. A refused payload adds one extraction error. Nothing else is
/// counted and no gauge is set.
pub proof fn law_ingested_payload_is_counted(
    side: ParitySide,
    result: Result<IngestedPayload, ParityError>,
    counter: Counter,
    gauge: Gauge,
)
    ensures
        ({
            let updates = monitor::ingest_report(side, result);
            let canonical = side == ParitySide::Canonical;
            &&& left_on(updates, gauge) is None
            &&& match result {
                Err(_) => gained(updates, counter) == one_if(counter == Counter::ExtractionErrors),
                Ok(decoded) => gained(updates, counter) == (if decoded.complete_channels == 0 {
                    0nat
                } else {
                    match counter {
                        Counter::CanonicalCompleteChannels => if canonical {
                            decoded.complete_channels as nat
                        } else {
                            0
                        },
                        Counter::ShadowCompleteChannels => if canonical {
                            0
                        } else {
                            decoded.complete_channels as nat
                        },
                        Counter::CanonicalBatches => if canonical {
                            decoded.batches as nat
                        } else {
                            0
                        },
                        Counter::ShadowBatches => if canonical {
                            0
                        } else {
                            decoded.batches as nat
                        },
                        Counter::CanonicalL2Blocks => if canonical {
                            decoded.l2_blocks as nat
                        } else {
                            0
                        },
                        Counter::ShadowL2Blocks => if canonical {
                            0
                        } else {
                            decoded.l2_blocks as nat
                        },
                        _ => 0nat,
                    }
                }),
            }
        }),
{
    let updates = monitor::ingest_report(side, result);
    assert(updates.take(0) =~= Seq::empty());
    assert(gained(updates.take(0), counter) == 0);
    assert(left_on(updates.take(0), gauge) is None);
    if updates.len() > 0 {
        lemma_take_push(updates, 0, counter, gauge);
    }
    if updates.len() > 1 {
        lemma_take_push(updates, 1, counter, gauge);
        lemma_take_push(updates, 2, counter, gauge);
    }
    assert(updates.take(updates.len() as int) =~= updates);
}

/// The gauge belongs to what a comparison reports.
pub open spec fn holds_comparison(gauge: Gauge) -> bool {
    match gauge {
        Gauge::LastMatchL1Block => true,
        Gauge::LastDivergenceL1Block => true,
        Gauge::LastL2BlockMatchTimestamp => true,
        Gauge::LastL2BlockMatchL1Block => true,
        Gauge::LastL2BlockMismatchTimestamp => true,
        Gauge::LastL2BlockMismatchL1Block => true,
        _ => false,
    }
}

/// The counter belongs to what a comparison reports.
pub open spec fn counts_comparison(counter: Counter) -> bool {
    match counter {
        Counter::Matches => true,
        Counter::Divergences => true,
        Counter::L2BlockMatches => true,
        Counter::L2BlockNonEmptyMatches => true,
        Counter::L2BlockMismatches => true,
        Counter::L2BlockOriginMismatches => true,
        Counter::L2BlockTxCountMismatches => true,
        Counter::L2BlockTxHashMismatches => true,
        _ => false,
    }
}

/// A comparison changes only its own counters and gauges.
pub proof fn law_comparison_reports_only_itself(
    state: StateView,
    l1_block: u64,
    counter: Counter,
    gauge: Gauge,
)
    ensures
        !counts_comparison(counter) ==> gained(state.compare_events(l1_block), counter) == 0,
        !holds_comparison(gauge) ==> left_on(state.compare_events(l1_block), gauge) is None,
{
    let batches = comparison::batch_events(
        state.canonical.batches,
        state.shadow.batches,
        state.batch_pairs(),
        l1_block,
    );
    let blocks = comparison::l2_events(state.l2_pairs(), l1_block);
    lemma_gained_join(batches, blocks, counter);
    lemma_left_on_join(batches, blocks, gauge);
    lemma_batches_report_only(
        state.canonical.batches,
        state.shadow.batches,
        state.batch_pairs(),
        l1_block,
        counter,
        gauge,
    );
    lemma_blocks_report_only(state.l2_pairs(), l1_block, counter, gauge);
}

proof fn lemma_batches_report_only(
    canonical: Seq<NormalizedBatch>,
    shadow: Seq<NormalizedBatch>,
    count: nat,
    l1_block: u64,
    counter: Counter,
    gauge: Gauge,
)
    ensures
        ({
            let updates = comparison::batch_events(canonical, shadow, count, l1_block);
            &&& !counts_comparison(counter) ==> gained(updates, counter) == 0
            &&& !holds_comparison(gauge) ==> left_on(updates, gauge) is None
        }),
    decreases count,
{
    if count > 0 {
        let fewer = (count - 1) as nat;
        let is_match = canonical[count - 1]@ == shadow[count - 1]@;
        let earlier = comparison::batch_events(canonical, shadow, fewer, l1_block);
        let last = comparison::batch_pair_events(is_match, l1_block);
        lemma_batches_report_only(canonical, shadow, fewer, l1_block, counter, gauge);
        lemma_gained_join(earlier, last, counter);
        lemma_left_on_join(earlier, last, gauge);
        law_compared_batches_are_reported(is_match, l1_block, counter, gauge);
    }
}

proof fn lemma_blocks_report_only(
    pairs: Seq<L2Pair>,
    l1_block: u64,
    counter: Counter,
    gauge: Gauge,
)
    ensures
        ({
            let updates = comparison::l2_events(pairs, l1_block);
            &&& !counts_comparison(counter) ==> gained(updates, counter) == 0
            &&& !holds_comparison(gauge) ==> left_on(updates, gauge) is None
        }),
    decreases pairs.len(),
{
    if pairs.len() > 0 {
        let earlier = comparison::l2_events(pairs.drop_last(), l1_block);
        let last = pairs.last().events(l1_block);
        lemma_blocks_report_only(pairs.drop_last(), l1_block, counter, gauge);
        lemma_gained_join(earlier, last, counter);
        lemma_left_on_join(earlier, last, gauge);
        law_compared_pair_is_reported(pairs.last(), l1_block, counter, gauge);
    }
}

/// A new state holds nothing on either side, has compared nothing, and its
/// alignment is not known.
pub proof fn law_new_state_holds_nothing(id: ChannelId, timestamp: u64)
    ensures
        ({
            let state = StateView::empty();
            &&& state.canonical.batches.len() == 0 && state.shadow.batches.len() == 0
            &&& state.canonical.channel_order.len() == 0 && state.shadow.channel_order.len() == 0
            &&& !state.canonical.channels.contains_key(id)
            &&& !state.shadow.channels.contains_key(id)
            &&& !state.canonical.l2_blocks.contains_key(timestamp)
            &&& !state.shadow.l2_blocks.contains_key(timestamp)
            &&& state.last_result is None && state.last_l2_result is None
            &&& state.last_reported_pending_drift == 0
            &&& state.alignment() is None
        }),
{
}

/// The state of the monitor is seen as it is: each side under its own name, its
/// queues in order, and the results of comparisons.
pub proof fn law_state_is_seen_as_it_is(state: ParityState, id: ChannelId, timestamp: u64)
    ensures
        state@.canonical.batches == state.canonical.batches@,
        state@.shadow.batches == state.shadow.batches@,
        state@.canonical.channel_order == state.canonical.channel_order@,
        state@.shadow.channel_order == state.shadow.channel_order@,
        state@.canonical.channels.contains_key(id) <==> state.canonical.channels@.contains_key(id),
        state@.shadow.channels.contains_key(id) <==> state.shadow.channels@.contains_key(id),
        state.canonical.channels@.contains_key(id) ==> state@.canonical.channels[id]
            == state.canonical.channels@[id]@,
        state.shadow.channels@.contains_key(id) ==> state@.shadow.channels[id]
            == state.shadow.channels@[id]@,
        state@.canonical.l2_blocks.contains_key(timestamp)
            <==> state.canonical.l2_blocks@.contains_key(timestamp),
        state@.shadow.l2_blocks.contains_key(timestamp)
            <==> state.shadow.l2_blocks@.contains_key(timestamp),
        state.canonical.l2_blocks@.contains_key(timestamp)
            ==> state@.canonical.l2_blocks[timestamp] == state.canonical.l2_blocks@[timestamp]@,
        state.shadow.l2_blocks@.contains_key(timestamp) ==> state@.shadow.l2_blocks[timestamp]
            == state.shadow.l2_blocks@[timestamp]@,
        state@.last_result == state.last_result,
        state@.last_l2_result == state.last_l2_result,
        state@.last_reported_pending_drift == state.last_reported_pending_drift,
{
}

/// A channel is seen as it is: its identifier, its opening block, its frames in
/// order, and whether it is complete. An opened channel has no frames and is not
/// complete.
pub proof fn law_channel_is_seen_as_it_is(channel: Channel, id: ChannelId, block: BlockInfo)
    ensures
        channel@.id == channel.id,
        channel@.open_block == channel.open_block,
        channel@.frames == channel.frames@,
        channel@.ready == channel.ready,
        ChannelView::opened(id, block).id == id,
        ChannelView::opened(id, block).open_block == block,
        ChannelView::opened(id, block).frames.len() == 0,
        !ChannelView::opened(id, block).ready,
{
}

/// Counts are reported exactly as far as they fit, and else as the largest one
/// that does.
pub proof fn law_counts_are_exact_or_largest(count: nat)
    ensures
        count <= usize::MAX ==> l2_queue::saturated(count) == count,
        count > usize::MAX ==> l2_queue::saturated(count) == usize::MAX,
{
}

/// The gauges of the latest matching and of the latest differing timestamp hold
/// the timestamp of the last such pair.
pub proof fn law_latest_timestamps_are_of_the_last_pairs(pairs: Seq<L2Pair>, l1_block: u64, k: int)
    requires
        0 <= k < pairs.len(),
    ensures
        ({
            let updates = comparison::l2_events(pairs, l1_block);
            let same = pairs[k].canonical.same_content(pairs[k].shadow);
            &&& same && (forall|j: int|
                k < j < pairs.len() ==> !(#[trigger] pairs[j]).canonical.same_content(
                    pairs[j].shadow,
                )) ==> left_on(updates, Gauge::LastL2BlockMatchTimestamp) == Some(
                pairs[k].timestamp,
            )
            &&& !same && (forall|j: int|
                k < j < pairs.len() ==> (#[trigger] pairs[j]).canonical.same_content(
                    pairs[j].shadow,
                )) ==> left_on(updates, Gauge::LastL2BlockMismatchTimestamp) == Some(
                pairs[k].timestamp,
            )
        }),
    decreases pairs.len(),
{
    let front = pairs.drop_last();
    let earlier = comparison::l2_events(front, l1_block);
    let last = pairs.last().events(l1_block);
    lemma_left_on_join(earlier, last, Gauge::LastL2BlockMatchTimestamp);
    lemma_left_on_join(earlier, last, Gauge::LastL2BlockMismatchTimestamp);
    law_compared_pair_is_reported(
        pairs.last(),
        l1_block,
        Counter::Matches,
        Gauge::LastL2BlockMatchTimestamp,
    );
    law_compared_pair_is_reported(
        pairs.last(),
        l1_block,
        Counter::Matches,
        Gauge::LastL2BlockMismatchTimestamp,
    );
    if k < pairs.len() - 1 {
        law_latest_timestamps_are_of_the_last_pairs(front, l1_block, k);
        assert(front[k] == pairs[k]);
        assert(pairs[pairs.len() - 1] == pairs.last());
        let same = pairs[k].canonical.same_content(pairs[k].shadow);
        if same && (forall|j: int|
            k < j < pairs.len() ==> !(#[trigger] pairs[j]).canonical.same_content(
                pairs[j].shadow,
            )) {
            assert forall|j: int| k < j < front.len() implies !(
            #[trigger] front[j]).canonical.same_content(front[j].shadow) by {
                assert(front[j] == pairs[j]);
            }
        }
        if !same && (forall|j: int|
            k < j < pairs.len() ==> (#[trigger] pairs[j]).canonical.same_content(
                pairs[j].shadow,
            )) {
            assert forall|j: int| k < j < front.len() implies (
            #[trigger] front[j]).canonical.same_content(front[j].shadow) by {
                assert(front[j] == pairs[j]);
            }
        }
    }
}

/// The names of the reasons for a mismatch.
pub proof fn law_reasons_have_their_names(reason: L2MismatchReason)
    ensures
        reason == L2MismatchReason::Origin ==> reason.text() == "origin"@,
        reason == L2MismatchReason::TxCount ==> reason.text() == "tx_count"@,
        reason == L2MismatchReason::TxHash ==> reason.text() == "tx_hash"@,
{
}

/// A side of the state is the one of that name. Replacing it leaves the other
/// side and the results of comparisons.
pub proof fn law_sides_are_told_apart(state: StateView, view: SideView)
    ensures
        state.side(ParitySide::Canonical) == state.canonical,
        state.side(ParitySide::Shadow) == state.shadow,
        state.with_side(ParitySide::Canonical, view).canonical == view,
        state.with_side(ParitySide::Canonical, view).shadow == state.shadow,
        state.with_side(ParitySide::Shadow, view).shadow == view,
        state.with_side(ParitySide::Shadow, view).canonical == state.canonical,
        forall|side: ParitySide|
            (#[trigger] state.with_side(side, view)).last_result == state.last_result
                && state.with_side(side, view).last_l2_result == state.last_l2_result
                && state.with_side(side, view).last_reported_pending_drift
                == state.last_reported_pending_drift,
{
}

} // verus!
