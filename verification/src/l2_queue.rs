//! Decoded L2 blocks that wait for comparison, queued by timestamp.

use crate::normalized::NormalizedL2Block;
use std::collections::{BTreeMap, VecDeque};
use vstd::prelude::*;

verus! {

broadcast use {
    vstd::std_specs::btree::group_btree_axioms,
    vstd::std_specs::vecdeque::group_vec_dequeue_axioms,
};

/// Number of distinct timestamps: every timestamp is below it.
pub open spec fn timestamp_end() -> nat {
    0x1_0000_0000_0000_0000
}

/// Queues of waiting blocks by timestamp, oldest block first.
pub type L2Queues = Map<u64, Seq<NormalizedL2Block>>;

/// The contents of an executable queue map.
pub open spec fn queues(map: BTreeMap<u64, VecDeque<NormalizedL2Block>>) -> L2Queues {
    map@.map_values(|queue: VecDeque<NormalizedL2Block>| queue@)
}

/// The blocks that wait at a timestamp.
pub open spec fn waiting_at(queues: L2Queues, timestamp: u64) -> Seq<NormalizedL2Block> {
    if queues.contains_key(timestamp) {
        queues[timestamp]
    } else {
        Seq::empty()
    }
}

/// The queues after a block was stored at the end of its timestamp's queue.
pub open spec fn pushed(queues: L2Queues, block: NormalizedL2Block) -> L2Queues {
    queues.insert(block.timestamp, waiting_at(queues, block.timestamp).push(block))
}

/// The queues after blocks were stored in order.
pub open spec fn pushed_all(queues: L2Queues, blocks: Seq<NormalizedL2Block>) -> L2Queues
    decreases blocks.len(),
{
    if blocks.len() == 0 {
        queues
    } else {
        pushed(pushed_all(queues, blocks.drop_last()), blocks.last())
    }
}

/// The queues after `count` blocks left the front of a timestamp's queue; a
/// queue that this empties is removed.
pub open spec fn advanced(queues: L2Queues, timestamp: u64, count: nat) -> L2Queues {
    if waiting_at(queues, timestamp).len() <= count {
        queues.remove(timestamp)
    } else {
        queues.insert(timestamp, queues[timestamp].skip(count as int))
    }
}

/// Number of blocks that wait at timestamps below `end`.
pub open spec fn blocks_below(queues: L2Queues, end: nat) -> nat
    decreases end,
{
    if end == 0 {
        0
    } else {
        blocks_below(queues, (end - 1) as nat) + waiting_at(queues, (end - 1) as u64).len()
    }
}

/// Number of blocks that wait at any timestamp.
pub open spec fn block_total(queues: L2Queues) -> nat {
    blocks_below(queues, timestamp_end())
}

/// Every queue holds a block, and every block waits at its own timestamp.
pub open spec fn queues_well_formed(queues: L2Queues) -> bool {
    forall|t: u64| #[trigger]
        queues.contains_key(t) ==> queues[t].len() > 0 && forall|i: int|
            0 <= i < queues[t].len() ==> (#[trigger] queues[t][i]).timestamp == t
}

/// The timestamp is the smallest one at which blocks wait.
pub open spec fn is_oldest(queues: L2Queues, timestamp: u64) -> bool {
    &&& queues.contains_key(timestamp)
    &&& forall|t: u64| #[trigger] queues.contains_key(t) ==> timestamp <= t
}

/// The smallest timestamp at which blocks wait, if any do.
pub open spec fn oldest(queues: L2Queues) -> Option<u64> {
    if exists|t: u64| is_oldest(queues, t) {
        Some(choose|t: u64| is_oldest(queues, t))
    } else {
        None
    }
}

/// A count as a machine integer; counts beyond the machine's range, which no
/// memory can hold, saturate.
pub open spec fn saturated(count: nat) -> usize {
    if count <= usize::MAX {
        count as usize
    } else {
        usize::MAX
    }
}

/// The timestamps are the keys of a map in ascending order.
pub open spec fn ascending_keys<V>(map: Map<u64, V>, timestamps: Seq<u64>) -> bool {
    &&& forall|i: int, j: int|
        0 <= i < j < timestamps.len() ==> #[trigger] timestamps[i] < #[trigger] timestamps[j]
    &&& forall|t: u64| #[trigger] map.contains_key(t) <==> timestamps.contains(t)
}

/// Queues that agree below `end` hold equally many blocks there.
pub proof fn lemma_blocks_below_agree(left: L2Queues, right: L2Queues, end: nat)
    requires
        end <= timestamp_end(),
        forall|t: u64| t < end ==> waiting_at(left, t).len() == waiting_at(right, t).len(),
    ensures
        blocks_below(left, end) == blocks_below(right, end),
    decreases end,
{
    if end > 0 {
        lemma_blocks_below_agree(left, right, (end - 1) as nat);
        assert(((end - 1) as u64) < end);
    }
}

/// Timestamps without waiting blocks add nothing.
pub proof fn lemma_blocks_below_gap(queues: L2Queues, start: nat, end: nat)
    requires
        start <= end <= timestamp_end(),
        forall|t: u64| start <= t < end ==> waiting_at(queues, t).len() == 0,
    ensures
        blocks_below(queues, start) == blocks_below(queues, end),
    decreases end - start,
{
    if start < end {
        assert(start <= ((end - 1) as u64) < end);
        lemma_blocks_below_gap(queues, start, (end - 1) as nat);
    }
}

/// Changing one queue changes the number of waiting blocks by as much.
pub proof fn lemma_blocks_below_change(
    left: L2Queues,
    right: L2Queues,
    timestamp: u64,
    end: nat,
)
    requires
        timestamp < end <= timestamp_end(),
        forall|t: u64| t != timestamp ==> waiting_at(left, t).len() == waiting_at(right, t).len(),
    ensures
        blocks_below(left, end) + waiting_at(right, timestamp).len() == blocks_below(right, end)
            + waiting_at(left, timestamp).len(),
    decreases end,
{
    if end == timestamp + 1 {
        lemma_blocks_below_agree(left, right, timestamp as nat);
        assert((end - 1) as u64 == timestamp);
    } else {
        lemma_blocks_below_change(left, right, timestamp, (end - 1) as nat);
        assert((end - 1) as u64 != timestamp);
    }
}

/// Storing a block makes one more block wait.
pub proof fn lemma_pushed_total(queues: L2Queues, block: NormalizedL2Block)
    ensures
        block_total(pushed(queues, block)) == block_total(queues) + 1,
{
    lemma_blocks_below_change(queues, pushed(queues, block), block.timestamp, timestamp_end());
}

/// Removing blocks from the front of a queue makes as many fewer wait.
pub proof fn lemma_advanced_total(queues: L2Queues, timestamp: u64, count: nat)
    requires
        count <= waiting_at(queues, timestamp).len(),
    ensures
        block_total(advanced(queues, timestamp, count)) == block_total(queues) - count,
{
    let after = advanced(queues, timestamp, count);
    assert(waiting_at(after, timestamp).len() == waiting_at(queues, timestamp).len() - count);
    lemma_blocks_below_change(queues, after, timestamp, timestamp_end());
}

/// The keys of a queue map in ascending order.
pub fn keys_in_order(map: &BTreeMap<u64, VecDeque<NormalizedL2Block>>) -> (timestamps: Vec<u64>)
    ensures
        ascending_keys(map@, timestamps@),
{
    broadcast use vstd::laws_cmp::group_laws_cmp;

    let mut timestamps: Vec<u64> = Vec::new();
    let keys = map.keys();
    let ghost all: Seq<&u64> = vstd::std_specs::iter::IteratorSpec::remaining(&keys);
    for timestamp in it: keys
        invariant
            it.seq() == all,
            timestamps@.len() == it.index(),
            forall|i: int| 0 <= i < timestamps@.len() ==> timestamps@[i] == *all[i],
    {
        timestamps.push(*timestamp);
    }
    proof {
        assert(timestamps@ =~= all.unref());
        assert(vstd::laws_cmp::obeys_cmp::<u64>());
        assert(vstd::laws_cmp::obeys_cmp::<&u64>());
        assert forall|i: int, j: int| 0 <= i < j < timestamps@.len() implies #[trigger]
            timestamps@[i] < #[trigger] timestamps@[j] by {
            assert(vstd::std_specs::cmp::OrdSpec::cmp_spec(&all[i], &all[j]) is Less);
        }
        assert forall|t: u64| #[trigger] map@.contains_key(t) implies timestamps@.contains(t) by {
            assert(all.unref().to_set().contains(t));
        }
        assert forall|t: u64| timestamps@.contains(t) implies #[trigger] map@.contains_key(t) by {
            assert(all.unref().to_set().contains(t));
        }
    }
    timestamps
}

} // verus!
