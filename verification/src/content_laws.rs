//! Laws of what a comparison looks at: which contents are equal, which blocks
//! and batches are compared with each other, and what is found of each pair.

use crate::comparison;
use crate::comparison::{L2MismatchReason, L2Pair};
use crate::divergence::{BatchDivergence, Divergence};
use crate::l2_queue;
use crate::l2_queue::L2Queues;
use crate::normalized;
use crate::normalized::{NormalizedBatch, NormalizedL2Block};
use crate::parity_laws;
use crate::parity_state::StateView;
use vstd::prelude::*;

verus! {

/// Two blocks have the same content exactly if their L1 origin numbers are
/// equal, they hold equally many transactions, and the transaction hashes at
/// every position are equal. Their timestamps do not matter.
pub proof fn law_content_is_origin_and_every_transaction(
    left: NormalizedL2Block,
    right: NormalizedL2Block,
)
    ensures
        left.same_content(right) <==> (left.epoch_num == right.epoch_num
            && left.tx_hashes@.len() == right.tx_hashes@.len() && forall|i: int|
            0 <= i < left.tx_hashes@.len() ==> #[trigger] left.tx_hashes@[i]
                == right.tx_hashes@[i]),
{
    if left.tx_hashes@.len() == right.tx_hashes@.len() && forall|i: int|
        0 <= i < left.tx_hashes@.len() ==> #[trigger] left.tx_hashes@[i] == right.tx_hashes@[i] {
        assert(left.tx_hashes@ =~= right.tx_hashes@);
    }
}

/// Two batches say the same exactly if they agree in every field: the kind, the
/// hashes and prefixes, the chain, the origin bits, the timestamps, the L1
/// origins, the block count, and all transaction counts and hashes in order.
pub proof fn law_batch_says_every_field(left: NormalizedBatch, right: NormalizedBatch)
    ensures
        left@ == right@ <==> {
            &&& left.kind == right.kind
            &&& left.parent_hash == right.parent_hash
            &&& left.epoch_hash == right.epoch_hash
            &&& left.parent_check == right.parent_check
            &&& left.l1_origin_check == right.l1_origin_check
            &&& left.chain_id == right.chain_id
            &&& left.origin_bits is Some <==> right.origin_bits is Some
            &&& left.origin_bits is Some ==> left.origin_bits->0@ == right.origin_bits->0@
            &&& left.start_timestamp == right.start_timestamp
            &&& left.end_timestamp == right.end_timestamp
            &&& left.start_epoch_num == right.start_epoch_num
            &&& left.end_epoch_num == right.end_epoch_num
            &&& left.block_count == right.block_count
            &&& left.tx_counts@ == right.tx_counts@
            &&& left.tx_hashes@ == right.tx_hashes@
        },
{
}

/// Two lists of batches match exactly if they are equally long and the batches
/// at every position say the same.
pub proof fn law_lists_match_position_by_position(
    left: Seq<NormalizedBatch>,
    right: Seq<NormalizedBatch>,
)
    ensures
        normalized::batch_views(left) == normalized::batch_views(right) <==> (left.len()
            == right.len() && forall|i: int|
            0 <= i < left.len() ==> (#[trigger] left[i])@ == right[i]@),
{
    let left_views = normalized::batch_views(left);
    let right_views = normalized::batch_views(right);
    if left_views == right_views {
        assert(left_views.len() == right_views.len());
        assert forall|i: int| 0 <= i < left.len() implies (#[trigger] left[i])@ == right[i]@ by {
            assert(left_views[i] == right_views[i]);
        }
    }
    if left.len() == right.len() && forall|i: int|
        0 <= i < left.len() ==> (#[trigger] left[i])@ == right[i]@ {
        assert(left_views =~= right_views);
    }
}

proof fn lemma_pair_found(
    canonical: L2Queues,
    shadow: L2Queues,
    timestamp: u64,
    i: int,
    end: nat,
) -> (k: int)
    requires
        timestamp < end <= l2_queue::timestamp_end(),
        canonical.contains_key(timestamp),
        shadow.contains_key(timestamp),
        0 <= i < canonical[timestamp].len(),
        i < shadow[timestamp].len(),
    ensures
        0 <= k < comparison::l2_pairs_below(canonical, shadow, end).len(),
        comparison::l2_pairs_below(canonical, shadow, end)[k] == (L2Pair {
            timestamp,
            canonical: canonical[timestamp][i],
            shadow: shadow[timestamp][i],
        }),
    decreases end,
{
    let earlier = comparison::l2_pairs_below(canonical, shadow, (end - 1) as nat);
    let t = (end - 1) as u64;
    if t == timestamp {
        let last = comparison::l2_pairs_at(canonical, shadow, t);
        assert((earlier + last)[earlier.len() + i] == last[i]);
        earlier.len() + i
    } else {
        let k = lemma_pair_found(canonical, shadow, timestamp, i, (end - 1) as nat);
        assert(comparison::l2_pairs_below(canonical, shadow, end)[k] == earlier[k]);
        k
    }
}

/// Whatever waits at a timestamp and a position on both sides is compared: the
/// i-th oldest canonical block with the i-th oldest shadow block.
pub proof fn law_blocks_meet_at_their_position(state: StateView, timestamp: u64, i: int) -> (k: int)
    requires
        state.canonical.l2_blocks.contains_key(timestamp),
        state.shadow.l2_blocks.contains_key(timestamp),
        0 <= i < state.canonical.l2_blocks[timestamp].len(),
        i < state.shadow.l2_blocks[timestamp].len(),
    ensures
        0 <= k < state.l2_pairs().len(),
        state.l2_pairs()[k].timestamp == timestamp,
        state.l2_pairs()[k].canonical == state.canonical.l2_blocks[timestamp][i],
        state.l2_pairs()[k].shadow == state.shadow.l2_blocks[timestamp][i],
{
    lemma_pair_found(
        state.canonical.l2_blocks,
        state.shadow.l2_blocks,
        timestamp,
        i,
        l2_queue::timestamp_end(),
    )
}

/// The pair joins blocks that wait at one timestamp at one position.
pub open spec fn meets_at(canonical: L2Queues, shadow: L2Queues, pair: L2Pair, i: int) -> bool {
    &&& canonical.contains_key(pair.timestamp)
    &&& shadow.contains_key(pair.timestamp)
    &&& 0 <= i < canonical[pair.timestamp].len()
    &&& i < shadow[pair.timestamp].len()
    &&& pair.canonical == canonical[pair.timestamp][i]
    &&& pair.shadow == shadow[pair.timestamp][i]
}

proof fn lemma_pair_position(canonical: L2Queues, shadow: L2Queues, end: nat, k: int) -> (i: int)
    requires
        end <= l2_queue::timestamp_end(),
        0 <= k < comparison::l2_pairs_below(canonical, shadow, end).len(),
    ensures
        ({
            let pair = comparison::l2_pairs_below(canonical, shadow, end)[k];
            &&& pair.timestamp < end
            &&& meets_at(canonical, shadow, pair, i)
        }),
    decreases end,
{
    let earlier = comparison::l2_pairs_below(canonical, shadow, (end - 1) as nat);
    let last = comparison::l2_pairs_at(canonical, shadow, (end - 1) as u64);
    if k < earlier.len() {
        assert((earlier + last)[k] == earlier[k]);
        lemma_pair_position(canonical, shadow, (end - 1) as nat, k)
    } else {
        assert((earlier + last)[k] == last[k - earlier.len()]);
        k - earlier.len()
    }
}

proof fn lemma_pairs_ordered(
    canonical: L2Queues,
    shadow: L2Queues,
    end: nat,
    first: int,
    second: int,
) -> (positions: (int, int))
    requires
        end <= l2_queue::timestamp_end(),
        0 <= first < second < comparison::l2_pairs_below(canonical, shadow, end).len(),
    ensures
        ({
            let pairs = comparison::l2_pairs_below(canonical, shadow, end);
            &&& meets_at(canonical, shadow, pairs[first], positions.0)
            &&& meets_at(canonical, shadow, pairs[second], positions.1)
            &&& pairs[first].timestamp < pairs[second].timestamp || (pairs[first].timestamp
                == pairs[second].timestamp && positions.0 < positions.1)
        }),
    decreases end,
{
    let earlier = comparison::l2_pairs_below(canonical, shadow, (end - 1) as nat);
    let last = comparison::l2_pairs_at(canonical, shadow, (end - 1) as u64);
    let pairs = earlier + last;
    if second < earlier.len() {
        assert(pairs[first] == earlier[first]);
        assert(pairs[second] == earlier[second]);
        lemma_pairs_ordered(canonical, shadow, (end - 1) as nat, first, second)
    } else {
        assert(pairs[second] == last[second - earlier.len()]);
        if first < earlier.len() {
            assert(pairs[first] == earlier[first]);
            let i = lemma_pair_position(canonical, shadow, (end - 1) as nat, first);
            (i, second - earlier.len())
        } else {
            assert(pairs[first] == last[first - earlier.len()]);
            (first - earlier.len(), second - earlier.len())
        }
    }
}

/// Nothing else is compared, and nothing twice: every pair joins blocks that
/// wait at one timestamp at one position, and pairs are compared in ascending
/// order of timestamp and, within a timestamp, of position.
pub proof fn law_pairs_are_compared_in_order(
    state: StateView,
    first: int,
    second: int,
) -> (positions: (int, int))
    requires
        0 <= first < second < state.l2_pairs().len(),
    ensures
        ({
            let left = state.l2_pairs()[first];
            let right = state.l2_pairs()[second];
            let canonical = state.canonical.l2_blocks;
            let shadow = state.shadow.l2_blocks;
            &&& meets_at(canonical, shadow, left, positions.0)
            &&& meets_at(canonical, shadow, right, positions.1)
            &&& left.timestamp < right.timestamp || (left.timestamp == right.timestamp
                && positions.0 < positions.1)
        }),
{
    lemma_pairs_ordered(
        state.canonical.l2_blocks,
        state.shadow.l2_blocks,
        l2_queue::timestamp_end(),
        first,
        second,
    )
}

/// Every compared pair joins blocks that wait at one timestamp at one position.
pub proof fn law_pairs_share_timestamp_and_position(state: StateView, k: int) -> (i: int)
    requires
        0 <= k < state.l2_pairs().len(),
    ensures
        meets_at(state.canonical.l2_blocks, state.shadow.l2_blocks, state.l2_pairs()[k], i),
{
    lemma_pair_position(
        state.canonical.l2_blocks,
        state.shadow.l2_blocks,
        l2_queue::timestamp_end(),
        k,
    )
}

/// The number of elements for which a list of verdicts says yes.
pub open spec fn yes_count(verdicts: Seq<bool>) -> nat {
    verdicts.filter(|verdict: bool| verdict).len()
}

proof fn lemma_yes_count_push(verdicts: Seq<bool>, verdict: bool)
    ensures
        yes_count(verdicts.push(verdict)) == yes_count(verdicts) + (if verdict {
            1nat
        } else {
            0nat
        }),
{
    reveal(Seq::filter);
    assert(verdicts.push(verdict).drop_last() =~= verdicts);
}

proof fn lemma_batch_matches_counted(
    canonical: Seq<NormalizedBatch>,
    shadow: Seq<NormalizedBatch>,
    count: nat,
)
    ensures
        comparison::batch_matches(canonical, shadow, count) == yes_count(
            Seq::new(count, |i: int| canonical[i]@ == shadow[i]@),
        ),
    decreases count,
{
    let verdicts = Seq::new(count, |i: int| canonical[i]@ == shadow[i]@);
    if count > 0 {
        let fewer = Seq::new((count - 1) as nat, |i: int| canonical[i]@ == shadow[i]@);
        lemma_batch_matches_counted(canonical, shadow, (count - 1) as nat);
        lemma_yes_count_push(fewer, canonical[count - 1]@ == shadow[count - 1]@);
        assert(verdicts =~= fewer.push(canonical[count - 1]@ == shadow[count - 1]@));
    } else {
        reveal(Seq::filter);
        assert(verdicts =~= Seq::empty());
    }
}

/// Batches are compared by position: as many pairs as the shorter queue has
/// batches, the i-th with the i-th. A pair counts as a match exactly if both say
/// the same, and every other one as a divergence. The last pair decides the last
/// result, which stays without pairs.
pub proof fn law_batches_are_compared_by_position(state: StateView)
    requires
        state.canonical.batches.len() <= usize::MAX,
    ensures
        ({
            let canonical = state.canonical.batches;
            let shadow = state.shadow.batches;
            let count = if canonical.len() <= shadow.len() {
                canonical.len()
            } else {
                shadow.len()
            };
            let stats = state.compare_stats();
            let after = state.after_compare();
            &&& stats.matches == yes_count(
                Seq::new(count, |i: int| canonical[i]@ == shadow[i]@),
            )
            &&& stats.matches + stats.divergences == count
            &&& after.canonical.batches == canonical.subrange(
                count as int,
                canonical.len() as int,
            )
            &&& after.shadow.batches == shadow.subrange(count as int, shadow.len() as int)
            &&& count == 0 ==> after.last_result == state.last_result
            &&& count > 0 ==> after.last_result == Some(
                canonical[count - 1]@ == shadow[count - 1]@,
            )
        }),
{
    let canonical = state.canonical.batches;
    let shadow = state.shadow.batches;
    lemma_batch_matches_counted(canonical, shadow, state.batch_pairs());
    parity_laws::law_unpaired_batches_keep_waiting(state);
}

proof fn lemma_l2_matches_counted(pairs: Seq<L2Pair>)
    ensures
        comparison::l2_matches(pairs) == yes_count(
            Seq::new(pairs.len(), |k: int| pairs[k].canonical.same_content(pairs[k].shadow)),
        ),
    decreases pairs.len(),
{
    let verdicts = Seq::new(
        pairs.len(),
        |k: int| pairs[k].canonical.same_content(pairs[k].shadow),
    );
    if pairs.len() > 0 {
        let front = pairs.drop_last();
        let fewer = Seq::new(
            front.len(),
            |k: int| front[k].canonical.same_content(front[k].shadow),
        );
        lemma_l2_matches_counted(front);
        let last = pairs.last().canonical.same_content(pairs.last().shadow);
        lemma_yes_count_push(fewer, last);
        assert(verdicts =~= fewer.push(last));
    } else {
        reveal(Seq::filter);
        assert(verdicts =~= Seq::empty());
    }
}

/// A pair of blocks counts as a match exactly if both have the same content, and
/// every other one as a mismatch. The last pair decides the last result, which
/// stays without pairs.
pub proof fn law_blocks_are_judged_by_content(state: StateView)
    requires
        state.l2_pairs().len() <= usize::MAX,
    ensures
        ({
            let pairs = state.l2_pairs();
            let stats = state.compare_stats();
            let after = state.after_compare();
            &&& stats.l2_block_matches == yes_count(
                Seq::new(pairs.len(), |k: int| pairs[k].canonical.same_content(pairs[k].shadow)),
            )
            &&& stats.l2_block_matches + stats.l2_block_mismatches == pairs.len()
            &&& pairs.len() == 0 ==> after.last_l2_result == state.last_l2_result
            &&& pairs.len() > 0 ==> after.last_l2_result == Some(
                pairs.last().canonical.same_content(pairs.last().shadow),
            )
        }),
{
    lemma_l2_matches_counted(state.l2_pairs());
    comparison::lemma_l2_pairs_counted(state.l2_pairs());
}

/// A timestamp's queue after a comparison: as many blocks left its front as the
/// shorter of the two queues had, and the others wait on in order. Without a
/// queue on the other side nothing leaves.
pub proof fn law_unpaired_blocks_keep_waiting(state: StateView, timestamp: u64)
    ensures
        ({
            let canonical = l2_queue::waiting_at(state.canonical.l2_blocks, timestamp);
            let shadow = l2_queue::waiting_at(state.shadow.l2_blocks, timestamp);
            let after = state.after_compare();
            let count = if canonical.len() <= shadow.len() {
                canonical.len() as int
            } else {
                shadow.len() as int
            };
            &&& l2_queue::waiting_at(after.canonical.l2_blocks, timestamp) == canonical.subrange(
                count,
                canonical.len() as int,
            )
            &&& l2_queue::waiting_at(after.shadow.l2_blocks, timestamp) == shadow.subrange(
                count,
                shadow.len() as int,
            )
            &&& after.canonical.channels == state.canonical.channels
            &&& after.shadow.channels == state.shadow.channels
            &&& after.canonical.channel_order == state.canonical.channel_order
            &&& after.shadow.channel_order == state.shadow.channel_order
            &&& after.last_reported_pending_drift == state.last_reported_pending_drift
        }),
{
}

/// What waits at a timestamp is what the queue of that timestamp holds, and
/// nothing where there is no queue.
pub proof fn law_waiting_is_the_queue(queues: L2Queues, timestamp: u64)
    ensures
        queues.contains_key(timestamp) ==> l2_queue::waiting_at(queues, timestamp)
            == queues[timestamp],
        !queues.contains_key(timestamp) ==> l2_queue::waiting_at(queues, timestamp).len() == 0,
{
}

/// A stored block joins the end of the queue of its own timestamp, behind all
/// that wait there, and no other queue changes.
pub proof fn law_stored_block_joins_its_queue(queues: L2Queues, block: NormalizedL2Block, t: u64)
    ensures
        ({
            let after = l2_queue::pushed(queues, block);
            &&& after.contains_key(block.timestamp)
            &&& after[block.timestamp].len() > 0
            &&& after[block.timestamp].last() == block
            &&& queues.contains_key(block.timestamp) ==> after[block.timestamp].drop_last()
                == queues[block.timestamp]
            &&& !queues.contains_key(block.timestamp) ==> after[block.timestamp].len() == 1
            &&& t != block.timestamp ==> (after.contains_key(t) <==> queues.contains_key(t))
            &&& t != block.timestamp && queues.contains_key(t) ==> after[t] == queues[t]
        }),
{
    let after = l2_queue::pushed(queues, block);
    if queues.contains_key(block.timestamp) {
        assert(after[block.timestamp].drop_last() =~= queues[block.timestamp]);
    }
}

/// Taking blocks off a timestamp's queue takes the oldest ones, removes the
/// queue exactly if none is left, and changes no other queue.
pub proof fn law_oldest_blocks_leave_first(queues: L2Queues, timestamp: u64, count: nat, t: u64)
    requires
        queues.contains_key(timestamp),
    ensures
        ({
            let queue = queues[timestamp];
            let after = l2_queue::advanced(queues, timestamp, count);
            &&& after.contains_key(timestamp) <==> count < queue.len()
            &&& count < queue.len() ==> after[timestamp] == queue.subrange(
                count as int,
                queue.len() as int,
            )
            &&& t != timestamp ==> (after.contains_key(t) <==> queues.contains_key(t))
            &&& t != timestamp && queues.contains_key(t) ==> after[t] == queues[t]
        }),
{
}

/// What a comparison records of a pair of blocks: nothing where their contents
/// are the same, else one record with the L1 block, the timestamp, and the L1
/// origins and transaction counts of both blocks. The reason is the first of
/// origin, transaction count and transaction hash in which they differ.
pub proof fn law_differing_blocks_are_recorded(pair: L2Pair, l1_block: u64)
    requires
        pair.canonical.tx_hashes@.len() <= usize::MAX,
        pair.shadow.tx_hashes@.len() <= usize::MAX,
    ensures
        pair.canonical.same_content(pair.shadow) ==> pair.divergences(l1_block).len() == 0,
        !pair.canonical.same_content(pair.shadow) ==> {
            &&& pair.divergences(l1_block).len() == 1
            &&& pair.divergences(l1_block)[0] matches Divergence::L2Block(record)
            &&& record.l1_block == l1_block
            &&& record.l2_timestamp == pair.timestamp
            &&& record.canonical_epoch == pair.canonical.epoch_num
            &&& record.shadow_epoch == pair.shadow.epoch_num
            &&& record.canonical_tx_count == pair.canonical.tx_hashes@.len()
            &&& record.shadow_tx_count == pair.shadow.tx_hashes@.len()
            &&& record.reason == L2MismatchReason::Origin <==> pair.canonical.epoch_num
                != pair.shadow.epoch_num
            &&& record.reason == L2MismatchReason::TxCount <==> pair.canonical.epoch_num
                == pair.shadow.epoch_num && pair.canonical.tx_hashes@.len()
                != pair.shadow.tx_hashes@.len()
        },
{
}

/// What a comparison records of a pair of batches: nothing where they say the
/// same, else one record with the L1 block and the first and last timestamps and
/// L1 origins of both batches.
pub proof fn law_differing_batches_are_recorded(
    canonical: NormalizedBatch,
    shadow: NormalizedBatch,
    l1_block: u64,
)
    ensures
        ({
            let records = comparison::batch_pair_divergences(canonical, shadow, l1_block);
            &&& canonical@ == shadow@ ==> records.len() == 0
            &&& canonical@ != shadow@ ==> {
                &&& records.len() == 1
                &&& records[0] matches Divergence::Batch(record)
                &&& record.l1_block == l1_block
                &&& record.canonical_start_timestamp == canonical.start_timestamp
                &&& record.canonical_end_timestamp == canonical.end_timestamp
                &&& record.canonical_start_epoch == canonical.start_epoch_num
                &&& record.canonical_end_epoch == canonical.end_epoch_num
                &&& record.shadow_start_timestamp == shadow.start_timestamp
                &&& record.shadow_end_timestamp == shadow.end_timestamp
                &&& record.shadow_start_epoch == shadow.start_epoch_num
                &&& record.shadow_end_epoch == shadow.end_epoch_num
            }
        }),
{
}

proof fn lemma_batch_record_found(
    canonical: Seq<NormalizedBatch>,
    shadow: Seq<NormalizedBatch>,
    count: nat,
    l1_block: u64,
    i: int,
) -> (r: int)
    requires
        0 <= i < count,
        canonical[i]@ != shadow[i]@,
    ensures
        ({
            let records = comparison::batch_divergences(canonical, shadow, count, l1_block);
            &&& 0 <= r < records.len()
            &&& r == comparison::batch_divergences(canonical, shadow, i as nat, l1_block).len()
            &&& records[r] == comparison::batch_pair_divergences(
                canonical[i],
                shadow[i],
                l1_block,
            )[0]
        }),
    decreases count,
{
    let earlier = comparison::batch_divergences(canonical, shadow, (count - 1) as nat, l1_block);
    let last = comparison::batch_pair_divergences(
        canonical[count - 1],
        shadow[count - 1],
        l1_block,
    );
    if i == count - 1 {
        assert((earlier + last)[earlier.len() as int] == last[0]);
        earlier.len() as int
    } else {
        let r = lemma_batch_record_found(canonical, shadow, (count - 1) as nat, l1_block, i);
        assert((earlier + last)[r] == earlier[r]);
        r
    }
}

/// Batches that differ at a position that both queues have are recorded, with
/// the L1 block and the timestamps and L1 origins of both.
pub proof fn law_every_differing_batch_is_recorded(
    state: StateView,
    l1_block: u64,
    i: int,
) -> (r: int)
    requires
        0 <= i < state.canonical.batches.len(),
        i < state.shadow.batches.len(),
        state.canonical.batches[i]@ != state.shadow.batches[i]@,
    ensures
        0 <= r < state.divergences(l1_block).len(),
        state.divergences(l1_block)[r] == Divergence::Batch(
            BatchDivergence {
                l1_block,
                canonical_start_timestamp: state.canonical.batches[i].start_timestamp,
                canonical_end_timestamp: state.canonical.batches[i].end_timestamp,
                canonical_start_epoch: state.canonical.batches[i].start_epoch_num,
                canonical_end_epoch: state.canonical.batches[i].end_epoch_num,
                shadow_start_timestamp: state.shadow.batches[i].start_timestamp,
                shadow_end_timestamp: state.shadow.batches[i].end_timestamp,
                shadow_start_epoch: state.shadow.batches[i].start_epoch_num,
                shadow_end_epoch: state.shadow.batches[i].end_epoch_num,
            },
        ),
{
    let r = lemma_batch_record_found(
        state.canonical.batches,
        state.shadow.batches,
        state.batch_pairs(),
        l1_block,
        i,
    );
    r
}

proof fn lemma_block_record_found(pairs: Seq<L2Pair>, l1_block: u64, k: int) -> (r: int)
    requires
        0 <= k < pairs.len(),
        !pairs[k].canonical.same_content(pairs[k].shadow),
    ensures
        0 <= r < comparison::l2_divergences(pairs, l1_block).len(),
        r == comparison::l2_divergences(pairs.take(k), l1_block).len(),
        comparison::l2_divergences(pairs, l1_block)[r] == pairs[k].divergences(l1_block)[0],
    decreases pairs.len(),
{
    let earlier = comparison::l2_divergences(pairs.drop_last(), l1_block);
    let last = pairs.last().divergences(l1_block);
    if k == pairs.len() - 1 {
        assert((earlier + last)[earlier.len() as int] == last[0]);
        assert(pairs.take(k) =~= pairs.drop_last());
        earlier.len() as int
    } else {
        assert(pairs.drop_last()[k] == pairs[k]);
        assert(pairs.drop_last().take(k) =~= pairs.take(k));
        let r = lemma_block_record_found(pairs.drop_last(), l1_block, k);
        assert((earlier + last)[r] == earlier[r]);
        r
    }
}

/// Blocks that wait at one timestamp and position and differ anywhere, in their
/// L1 origin, in their number of transactions or in the hash at any transaction
/// position, are recorded as a divergence with that timestamp.
pub proof fn law_every_differing_block_is_recorded(
    state: StateView,
    l1_block: u64,
    timestamp: u64,
    i: int,
) -> (r: int)
    requires
        state.canonical.l2_blocks.contains_key(timestamp),
        state.shadow.l2_blocks.contains_key(timestamp),
        0 <= i < state.canonical.l2_blocks[timestamp].len(),
        i < state.shadow.l2_blocks[timestamp].len(),
        ({
            let left = state.canonical.l2_blocks[timestamp][i];
            let right = state.shadow.l2_blocks[timestamp][i];
            ||| left.epoch_num != right.epoch_num
            ||| left.tx_hashes@.len() != right.tx_hashes@.len()
            ||| exists|p: int|
                0 <= p < left.tx_hashes@.len() && #[trigger] left.tx_hashes@[p]
                    != right.tx_hashes@[p]
        }),
    ensures
        0 <= r < state.divergences(l1_block).len(),
        ({
            let left = state.canonical.l2_blocks[timestamp][i];
            let right = state.shadow.l2_blocks[timestamp][i];
            &&& state.divergences(l1_block)[r] matches Divergence::L2Block(record)
            &&& record.l1_block == l1_block
            &&& record.l2_timestamp == timestamp
            &&& record.canonical_epoch == left.epoch_num
            &&& record.shadow_epoch == right.epoch_num
        }),
        state.compare_stats().l2_block_mismatches > 0,
{
    let left = state.canonical.l2_blocks[timestamp][i];
    let right = state.shadow.l2_blocks[timestamp][i];
    law_content_is_origin_and_every_transaction(left, right);
    let k = law_blocks_meet_at_their_position(state, timestamp, i);
    let r = lemma_block_record_found(state.l2_pairs(), l1_block, k);
    let batches = comparison::batch_divergences(
        state.canonical.batches,
        state.shadow.batches,
        state.batch_pairs(),
        l1_block,
    );
    let blocks = comparison::l2_divergences(state.l2_pairs(), l1_block);
    assert((batches + blocks)[batches.len() + r] == blocks[r]);
    lemma_mismatch_counted(state.l2_pairs(), k);
    batches.len() + r
}

proof fn lemma_mismatch_counted(pairs: Seq<L2Pair>, k: int)
    requires
        0 <= k < pairs.len(),
        !pairs[k].canonical.same_content(pairs[k].shadow),
    ensures
        comparison::l2_mismatches(pairs) > 0,
    decreases pairs.len(),
{
    if k < pairs.len() - 1 {
        assert(pairs.drop_last()[k] == pairs[k]);
        lemma_mismatch_counted(pairs.drop_last(), k);
    }
}

/// Two blocks that wait alone at a timestamp which the sides share with no other
/// are the one pair of a comparison. It is a match exactly if L1 origin,
/// transaction count and the hash at every transaction position agree.
pub proof fn law_lone_pair_matches_on_equal_content(
    state: StateView,
    timestamp: u64,
    left: NormalizedL2Block,
    right: NormalizedL2Block,
)
    requires
        state.canonical.l2_blocks == map![timestamp => seq![left]],
        state.shadow.l2_blocks == map![timestamp => seq![right]],
    ensures
        ({
            let equal = left.epoch_num == right.epoch_num && left.tx_hashes@.len()
                == right.tx_hashes@.len() && forall|p: int|
                0 <= p < left.tx_hashes@.len() ==> #[trigger] left.tx_hashes@[p]
                    == right.tx_hashes@[p];
            let stats = state.compare_stats();
            let after = state.after_compare();
            &&& stats.l2_block_matches == (if equal {
                1int
            } else {
                0
            })
            &&& stats.l2_block_mismatches == (if equal {
                0int
            } else {
                1
            })
            &&& after.last_l2_result == Some(equal)
            &&& after.alignment() == Some(equal)
        }),
{
    law_content_is_origin_and_every_transaction(left, right);
    assert forall|t: u64|
        t != timestamp implies l2_queue::waiting_at(state.canonical.l2_blocks, t).len() == 0
        || l2_queue::waiting_at(state.shadow.l2_blocks, t).len() == 0 by {}
    parity_laws::law_pairs_of_one_timestamp(state, timestamp);
    let pairs = state.l2_pairs();
    assert(pairs.len() == 1);
    assert(pairs.drop_last() =~= Seq::empty());
    assert(comparison::l2_matches(pairs.drop_last()) == 0);
    assert(comparison::l2_mismatches(pairs.drop_last()) == 0);
    let after = state.after_compare();
    assert forall|t: u64| t != timestamp implies #[trigger] l2_queue::waiting_at(
        after.canonical.l2_blocks,
        t,
    ).len() == 0 by {}
    assert forall|t: u64| t != timestamp implies #[trigger] l2_queue::waiting_at(
        after.shadow.l2_blocks,
        t,
    ).len() == 0 by {}
    parity_laws::law_total_of_one_timestamp(after.canonical.l2_blocks, timestamp);
    parity_laws::law_total_of_one_timestamp(after.shadow.l2_blocks, timestamp);
}

proof fn lemma_batch_records_grow(
    canonical: Seq<NormalizedBatch>,
    shadow: Seq<NormalizedBatch>,
    fewer: nat,
    more: nat,
    l1_block: u64,
)
    requires
        fewer <= more,
    ensures
        comparison::batch_divergences(canonical, shadow, fewer, l1_block).len()
            <= comparison::batch_divergences(canonical, shadow, more, l1_block).len(),
    decreases more,
{
    if fewer < more {
        lemma_batch_records_grow(canonical, shadow, fewer, (more - 1) as nat, l1_block);
    }
}

/// Records of differing batches stand in the order of their positions, in front
/// of all records of differing blocks.
pub proof fn law_batch_records_stand_in_order(
    state: StateView,
    l1_block: u64,
    i: int,
    j: int,
) -> (records: (int, int))
    requires
        0 <= i < j < state.canonical.batches.len(),
        j < state.shadow.batches.len(),
        state.canonical.batches[i]@ != state.shadow.batches[i]@,
        state.canonical.batches[j]@ != state.shadow.batches[j]@,
    ensures
        0 <= records.0 < records.1 < state.divergences(l1_block).len() - comparison::l2_mismatches(
            state.l2_pairs(),
        ),
        state.divergences(l1_block)[records.0] == comparison::batch_pair_divergences(
            state.canonical.batches[i],
            state.shadow.batches[i],
            l1_block,
        )[0],
        state.divergences(l1_block)[records.1] == comparison::batch_pair_divergences(
            state.canonical.batches[j],
            state.shadow.batches[j],
            l1_block,
        )[0],
{
    let canonical = state.canonical.batches;
    let shadow = state.shadow.batches;
    let count = state.batch_pairs();
    let first = lemma_batch_record_found(canonical, shadow, count, l1_block, i);
    let second = lemma_batch_record_found(canonical, shadow, count, l1_block, j);
    lemma_batch_records_grow(canonical, shadow, (i + 1) as nat, j as nat, l1_block);
    assert(comparison::batch_divergences(canonical, shadow, (i + 1) as nat, l1_block).len()
        == first + 1);
    lemma_block_records_counted(state.l2_pairs(), l1_block);
    (first, second)
}

proof fn lemma_block_records_counted(pairs: Seq<L2Pair>, l1_block: u64)
    ensures
        comparison::l2_divergences(pairs, l1_block).len() == comparison::l2_mismatches(pairs),
    decreases pairs.len(),
{
    if pairs.len() > 0 {
        lemma_block_records_counted(pairs.drop_last(), l1_block);
    }
}

proof fn lemma_block_records_grow(pairs: Seq<L2Pair>, fewer: int, more: int, l1_block: u64)
    requires
        0 <= fewer <= more <= pairs.len(),
    ensures
        comparison::l2_divergences(pairs.take(fewer), l1_block).len()
            <= comparison::l2_divergences(pairs.take(more), l1_block).len(),
    decreases more,
{
    if fewer < more {
        assert(pairs.take(more).drop_last() =~= pairs.take(more - 1));
        lemma_block_records_grow(pairs, fewer, more - 1, l1_block);
    }
}

/// Records of differing blocks stand in the order in which their pairs were
/// compared, behind all records of differing batches.
pub proof fn law_block_records_stand_in_order(
    state: StateView,
    l1_block: u64,
    first: int,
    second: int,
) -> (records: (int, int))
    requires
        0 <= first < second < state.l2_pairs().len(),
        !state.l2_pairs()[first].canonical.same_content(state.l2_pairs()[first].shadow),
        !state.l2_pairs()[second].canonical.same_content(state.l2_pairs()[second].shadow),
    ensures
        state.batch_pairs() - state.batch_matches() <= records.0 < records.1 < state.divergences(
            l1_block,
        ).len(),
        state.divergences(l1_block)[records.0] == state.l2_pairs()[first].divergences(l1_block)[0],
        state.divergences(l1_block)[records.1] == state.l2_pairs()[second].divergences(l1_block)[0],
{
    let pairs = state.l2_pairs();
    let r = lemma_block_record_found(pairs, l1_block, first);
    let q = lemma_block_record_found(pairs, l1_block, second);
    lemma_block_records_grow(pairs, first + 1, second, l1_block);
    assert(pairs.take(first + 1).drop_last() =~= pairs.take(first));
    assert(pairs.take(first + 1).last() == pairs[first]);
    let batches = comparison::batch_divergences(
        state.canonical.batches,
        state.shadow.batches,
        state.batch_pairs(),
        l1_block,
    );
    let blocks = comparison::l2_divergences(pairs, l1_block);
    assert((batches + blocks)[batches.len() + r] == blocks[r]);
    assert((batches + blocks)[batches.len() + q] == blocks[q]);
    parity_laws::law_every_divergence_is_recorded(state, l1_block);
    lemma_block_records_counted(pairs, l1_block);
    (batches.len() + r, batches.len() + q)
}

} // verus!
