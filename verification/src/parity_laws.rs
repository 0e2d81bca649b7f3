//! Laws of the parity comparison.

use crate::channel::{
    BlobDecodeError, BlockInfo, Channel, ChannelId, DerivationCodec, Frame, FrameOutcome,
    FrameParseError, NormalizedChannel,
};
use crate::comparison;
use crate::comparison::L2Pair;
use crate::error::ParityError;
use crate::l2_queue;
use crate::l2_queue::L2Queues;
use crate::metrics::MetricEvent;
use crate::normalized::{NormalizedBatch, NormalizedL2Block};
use crate::parity_state::{ParitySide, StateView};
use crate::side_state;
use crate::side_state::{IngestedPayload, SideView};
use vstd::prelude::*;

verus! {

/// Storing a block keeps the queues well formed.
pub proof fn law_push_keeps_queues(queues: L2Queues, block: NormalizedL2Block)
    requires
        l2_queue::queues_well_formed(queues),
    ensures
        l2_queue::queues_well_formed(l2_queue::pushed(queues, block)),
{
    let after = l2_queue::pushed(queues, block);
    assert forall|t: u64| #[trigger] after.contains_key(t) implies after[t].len() > 0 && forall|
        i: int,
    | 0 <= i < after[t].len() ==> (#[trigger] after[t][i]).timestamp == t by {
        if t != block.timestamp {
            assert(queues.contains_key(t));
        } else if queues.contains_key(t) {
            assert forall|i: int| 0 <= i < after[t].len() implies (#[trigger] after[t][i]).timestamp
                == t by {
                if i < queues[t].len() {
                    assert(after[t][i] == queues[t][i]);
                }
            }
        }
    }
}

/// Storing blocks keeps the queues well formed.
pub proof fn law_push_all_keeps_queues(queues: L2Queues, blocks: Seq<NormalizedL2Block>)
    requires
        l2_queue::queues_well_formed(queues),
    ensures
        l2_queue::queues_well_formed(l2_queue::pushed_all(queues, blocks)),
        l2_queue::block_total(l2_queue::pushed_all(queues, blocks)) == l2_queue::block_total(queues)
            + blocks.len(),
    decreases blocks.len(),
{
    if blocks.len() > 0 {
        law_push_all_keeps_queues(queues, blocks.drop_last());
        let before = l2_queue::pushed_all(queues, blocks.drop_last());
        law_push_keeps_queues(before, blocks.last());
        l2_queue::lemma_pushed_total(before, blocks.last());
    }
}

/// Taking blocks off the front of a queue keeps the queues well formed and makes
/// as many fewer blocks wait.
pub proof fn law_pop_keeps_queues(queues: L2Queues, timestamp: u64, count: nat)
    requires
        l2_queue::queues_well_formed(queues),
    ensures
        l2_queue::queues_well_formed(l2_queue::advanced(queues, timestamp, count)),
        count <= l2_queue::waiting_at(queues, timestamp).len() ==> l2_queue::block_total(
            l2_queue::advanced(queues, timestamp, count),
        ) == l2_queue::block_total(queues) - count,
{
    if count <= l2_queue::waiting_at(queues, timestamp).len() {
        l2_queue::lemma_advanced_total(queues, timestamp, count);
    }
    let after = l2_queue::advanced(queues, timestamp, count);
    assert forall|t: u64| #[trigger] after.contains_key(t) implies after[t].len() > 0 && forall|
        i: int,
    | 0 <= i < after[t].len() ==> (#[trigger] after[t][i]).timestamp == t by {
        assert(queues.contains_key(t));
        assert forall|i: int| 0 <= i < after[t].len() implies (#[trigger] after[t][i]).timestamp
            == t by {
            if t == timestamp {
                assert(after[t][i] == queues[t][i + count]);
            }
        }
    }
}

/// A block stored at a timestamp where none waits is the next one to leave,
/// and its leaving restores the queues.
pub proof fn law_pop_undoes_push(queues: L2Queues, block: NormalizedL2Block)
    requires
        !queues.contains_key(block.timestamp),
    ensures
        l2_queue::waiting_at(l2_queue::pushed(queues, block), block.timestamp)[0] == block,
        l2_queue::advanced(l2_queue::pushed(queues, block), block.timestamp, 1) == queues,
{
    assert(l2_queue::advanced(l2_queue::pushed(queues, block), block.timestamp, 1) =~= queues);
}

/// Blocks of one timestamp leave in the order in which they were stored: a
/// new block does not change which waiting block is the next one.
pub proof fn law_blocks_leave_in_order(queues: L2Queues, block: NormalizedL2Block)
    requires
        l2_queue::waiting_at(queues, block.timestamp).len() > 0,
    ensures
        l2_queue::waiting_at(l2_queue::pushed(queues, block), block.timestamp)[0]
            == l2_queue::waiting_at(queues, block.timestamp)[0],
        l2_queue::advanced(l2_queue::pushed(queues, block), block.timestamp, 1)
            == l2_queue::pushed(l2_queue::advanced(queues, block.timestamp, 1), block),
{
    let t = block.timestamp;
    let left = l2_queue::advanced(l2_queue::pushed(queues, block), t, 1);
    let right = l2_queue::pushed(l2_queue::advanced(queues, t, 1), block);
    assert(left[t] =~= right[t]);
    assert(left =~= right);
}

/// The order in which blocks of different timestamps were submitted does not
/// matter.
pub proof fn law_submission_order_is_irrelevant(
    queues: L2Queues,
    first: NormalizedL2Block,
    second: NormalizedL2Block,
)
    requires
        first.timestamp != second.timestamp,
    ensures
        l2_queue::pushed(l2_queue::pushed(queues, first), second) == l2_queue::pushed(
            l2_queue::pushed(queues, second),
            first,
        ),
{
    assert(l2_queue::pushed(l2_queue::pushed(queues, first), second) =~= l2_queue::pushed(
        l2_queue::pushed(queues, second),
        first,
    ));
}

/// Membership in a filtered list.
proof fn lemma_filter_members(
    list: Seq<ChannelId>,
    pred: spec_fn(ChannelId) -> bool,
    id: ChannelId,
)
    ensures
        list.filter(pred).contains(id) <==> list.contains(id) && pred(id),
    decreases list.len(),
{
    reveal(Seq::filter);
    if list.len() > 0 {
        lemma_filter_members(list.drop_last(), pred, id);
        let rest = list.drop_last().filter(pred);
        if list.contains(id) {
            let k = list.index_of(id);
            if k < list.len() - 1 {
                assert(list.drop_last()[k] == id);
            }
        }
        if list.drop_last().contains(id) {
            let k = list.drop_last().index_of(id);
            assert(list[k] == id);
        }
        if pred(list.last()) {
            let pushed = rest.push(list.last());
            assert(pushed[rest.len() as int] == list.last());
            if rest.contains(id) {
                let k = rest.index_of(id);
                assert(pushed[k] == id);
            }
            if pushed.contains(id) {
                let k = pushed.index_of(id);
                if k < rest.len() {
                    assert(rest[k] == id);
                }
            }
        }
    }
}

/// Filtering keeps a list free of duplicates.
pub proof fn lemma_filter_distinct(list: Seq<ChannelId>, pred: spec_fn(ChannelId) -> bool)
    requires
        list.no_duplicates(),
    ensures
        list.filter(pred).no_duplicates(),
    decreases list.len(),
{
    reveal(Seq::filter);
    if list.len() > 0 {
        let front = list.drop_last();
        lemma_filter_distinct(front, pred);
        lemma_filter_members(front, pred, list.last());
        if front.contains(list.last()) {
            let k = front.index_of(list.last());
            assert(list[k] == list[list.len() - 1]);
        }
        let rest = front.filter(pred);
        if pred(list.last()) {
            assert forall|i: int, j: int|
                0 <= i < j < rest.len() + 1 implies rest.push(list.last())[i] != rest.push(
                list.last(),
            )[j] by {
                if j == rest.len() {
                    assert(rest.contains(rest[i]));
                }
            }
        }
    }
}

/// A side that has seen nothing is well formed.
pub proof fn law_empty_side_is_well_formed()
    ensures
        SideView::empty().well_formed(),
        StateView::empty().well_formed(),
{
}

/// Handing over a frame keeps a side well formed.
pub proof fn law_frame_keeps_side(
    side: SideView,
    frame: Frame,
    block: BlockInfo,
    outcome: FrameOutcome,
)
    requires
        side.well_formed(),
    ensures
        side.after_frame(frame, block, outcome).well_formed(),
{
    let after = side.after_frame(frame, block, outcome);
    let order = side.channel_order;
    if !side.channels.contains_key(frame.id) {
        assert(!order.contains(frame.id));
        assert forall|i: int, j: int| 0 <= i < j < order.len() + 1 implies order.push(
            frame.id,
        )[i] != order.push(frame.id)[j] by {
            if j == order.len() {
                assert(order.contains(order[i]));
            }
        }
    }
    assert forall|id: ChannelId| #[trigger]
        after.channels.contains_key(id) <==> after.channel_order.contains(id) by {
        assert(side.channels.contains_key(id) <==> order.contains(id));
        if !side.channels.contains_key(frame.id) {
            assert(after.channel_order[order.len() as int] == frame.id);
            if order.contains(id) {
                let k = order.index_of(id);
                assert(after.channel_order[k] == id);
            }
            if after.channel_order.contains(id) {
                let k = after.channel_order.index_of(id);
                if k < order.len() {
                    assert(order[k] == id);
                }
            }
        }
    }
    assert forall|id: ChannelId| #[trigger]
        after.channels.contains_key(id) implies after.channels[id].id == id by {
        if id != frame.id {
            assert(side.channels.contains_key(id));
        }
    }
}

/// Handing over frames keeps a side well formed.
pub proof fn law_frames_keep_side(
    side: SideView,
    frames: Seq<Frame>,
    block: BlockInfo,
    outcomes: Seq<FrameOutcome>,
)
    requires
        side.well_formed(),
    ensures
        side.after_frames(frames, block, outcomes).well_formed(),
    decreases frames.len(),
{
    if frames.len() > 0 {
        law_frames_keep_side(side, frames.drop_last(), block, outcomes.drop_last());
        law_frame_keeps_side(
            side.after_frames(frames.drop_last(), block, outcomes.drop_last()),
            frames.last(),
            block,
            outcomes.last(),
        );
    }
}

/// Keeping some channels keeps a side well formed.
proof fn lemma_kept_channels(
    side: SideView,
    after: SideView,
    pred: spec_fn(ChannelId) -> bool,
)
    requires
        side.well_formed(),
        l2_queue::queues_well_formed(after.l2_blocks),
        after.channel_order == side.channel_order.filter(pred),
        forall|id: ChannelId| #[trigger]
            after.channels.contains_key(id) <==> side.channels.contains_key(id) && pred(id),
        forall|id: ChannelId| #[trigger]
            after.channels.contains_key(id) ==> after.channels[id] == side.channels[id],
    ensures
        after.well_formed(),
{
    lemma_filter_distinct(side.channel_order, pred);
    assert forall|id: ChannelId| #[trigger]
        after.channels.contains_key(id) <==> after.channel_order.contains(id) by {
        lemma_filter_members(side.channel_order, pred, id);
        assert(side.channels.contains_key(id) <==> side.channel_order.contains(id));
    }
    assert forall|id: ChannelId| #[trigger]
        after.channels.contains_key(id) implies after.channels[id].id == id by {
        assert(side.channels.contains_key(id));
    }
}

/// Draining complete channels keeps a side well formed. Each handled channel
/// counts either as decoded or as corrupt, so a corrupt channel does not stop
/// the others, and what the decoded ones hold is queued without loss.
pub proof fn law_drain_keeps_side(
    side: SideView,
    ids: Seq<ChannelId>,
    results: Seq<Option<NormalizedChannel>>,
)
    requires
        side.well_formed(),
        ids.no_duplicates(),
        results.len() == ids.len(),
        forall|i: int| 0 <= i < ids.len() ==> side.channels.contains_key(#[trigger] ids[i]),
    ensures
        ({
            let drain = side_state::drained(side, ids, results);
            &&& drain.side.well_formed()
            &&& drain.complete_channels + drain.decode_errors == ids.len()
            &&& drain.side.batches.len() == side.batches.len() + drain.batches
            &&& l2_queue::block_total(drain.side.l2_blocks) == l2_queue::block_total(
                side.l2_blocks,
            ) + drain.l2_blocks
            &&& forall|id: ChannelId| #[trigger]
                drain.side.channels.contains_key(id) <==> side.channels.contains_key(id)
                    && !ids.contains(id)
            &&& forall|id: ChannelId| #[trigger]
                drain.side.channels.contains_key(id) ==> drain.side.channels[id]
                    == side.channels[id]
        }),
    decreases ids.len(),
{
    if ids.len() > 0 {
        let front = ids.drop_last();
        let id = ids.last();
        assert forall|i: int| 0 <= i < front.len() implies side.channels.contains_key(
            #[trigger] front[i],
        ) by {
            assert(front[i] == ids[i]);
        }
        law_drain_keeps_side(side, front, results.drop_last());
        let before = side_state::drained(side, front, results.drop_last());
        let after = side_state::drained(side, ids, results);
        assert(side.channels.contains_key(ids[ids.len() - 1]));
        if front.contains(id) {
            let k = front.index_of(id);
            assert(ids[k] == ids[ids.len() - 1]);
        }
        assert(before.side.channels.contains_key(id));
        match results.last() {
            Some(decoded) => {
                law_push_all_keeps_queues(before.side.l2_blocks, decoded.l2_blocks@);
            },
            None => {},
        }
        lemma_kept_channels(before.side, after.side, side_state::other_than(id));
        assert forall|other: ChannelId| ids.contains(other) <==> front.contains(other) || other
            == id by {
            if ids.contains(other) {
                let k = ids.index_of(other);
                if k < front.len() {
                    assert(front[k] == other);
                }
            }
            if front.contains(other) {
                let k = front.index_of(other);
                assert(ids[k] == other);
            }
            assert(ids[ids.len() - 1] == id);
        }
    }
}

/// After a well-formed side was drained of its complete channels none of them
/// is left, and every one of them counts either as decoded or as corrupt.
pub proof fn law_drain_leaves_no_ready_channel(
    side: SideView,
    results: Seq<Option<NormalizedChannel>>,
)
    requires
        side.well_formed(),
        results.len() == side.ready_ids().len(),
    ensures
        ({
            let drain = side_state::drained(side, side.ready_ids(), results);
            &&& drain.side.well_formed()
            &&& drain.side.ready_ids().len() == 0
            &&& drain.complete_channels + drain.decode_errors == side.ready_ids().len()
        }),
{
    let pred = side_state::is_ready(side.channels);
    let ids = side.ready_ids();
    lemma_filter_distinct(side.channel_order, pred);
    assert forall|i: int| 0 <= i < ids.len() implies side.channels.contains_key(
        #[trigger] ids[i],
    ) by {
        side.channel_order.lemma_filter_pred(pred, i);
    }
    law_drain_keeps_side(side, ids, results);
    let after = side_state::drained(side, ids, results).side;
    if after.ready_ids().len() > 0 {
        let id = after.ready_ids()[0];
        after.channel_order.lemma_filter_pred(side_state::is_ready(after.channels), 0);
        assert(side.channels.contains_key(id));
        assert(side.channel_order.contains(id));
        lemma_filter_members(side.channel_order, pred, id);
    }
}

/// Ingesting a payload keeps a side well formed and leaves no complete channel
/// behind, whatever the derivation operations answer; a payload that does not
/// parse changes nothing.
pub proof fn law_ingest_keeps_side<
    P: Fn(&[u8]) -> Result<Vec<Frame>, FrameParseError>,
    A: Fn(&Channel, &Frame, &BlockInfo) -> FrameOutcome,
    N: Fn(&Channel, u64) -> Option<NormalizedChannel>,
    T: Fn(u64) -> u64,
    D: Fn(&Vec<u8>) -> Result<Vec<u8>, BlobDecodeError>,
>(
    codec: DerivationCodec<P, A, N, T, D>,
    pre: SideView,
    payload: Seq<u8>,
    block: BlockInfo,
    post: SideView,
    result: Result<IngestedPayload, ParityError>,
    events: Seq<MetricEvent>,
)
    requires
        pre.well_formed(),
        codec.ingests(pre, payload, block, post, result, events),
    ensures
        post.well_formed(),
        result is Ok ==> post.ready_ids().len() == 0,
        result is Err ==> post == pre,
{
    match result {
        Err(error) => {},
        Ok(ingested) => {
            assert(codec.ingests_frames(pre, payload, block, post, ingested, events));
            let (frames, outcomes, results) = choose|
                frames: Vec<Frame>,
                outcomes: Seq<FrameOutcome>,
                results: Seq<Option<NormalizedChannel>>,
            | #[trigger]
                codec.ingests_via(
                    pre,
                    payload,
                    block,
                    frames,
                    outcomes,
                    results,
                    post,
                    ingested,
                    events,
                );
            law_frames_keep_side(pre, frames@, block, outcomes);
            law_drain_leaves_no_ready_channel(
                pre.after_frames(frames@, block, outcomes),
                results,
            );
        },
    }
}

/// Eviction keeps a side well formed, removes exactly the expired channels,
/// leaves the others as they are and is complete: none that remains is expired.
pub proof fn law_evict_removes_exactly_expired(side: SideView, l1_block: u64, timeout: u64)
    requires
        side.well_formed(),
    ensures
        ({
            let after = side.without_expired(l1_block, timeout);
            &&& after.well_formed()
            &&& after.expired_ids(l1_block, timeout).len() == 0
            &&& after.channel_order.len() + side.expired_ids(l1_block, timeout).len()
                == side.channel_order.len()
            &&& forall|id: ChannelId| #[trigger]
                after.channels.contains_key(id) <==> side.channels.contains_key(id)
                    && side.channels[id].open_block.number + timeout >= l1_block
            &&& forall|id: ChannelId| #[trigger]
                after.channels.contains_key(id) ==> after.channels[id] == side.channels[id]
            &&& after.batches == side.batches
            &&& after.l2_blocks == side.l2_blocks
        }),
{
    let after = side.without_expired(l1_block, timeout);
    let pred = side_state::is_expired(side.channels, l1_block, timeout);
    let expired = side.expired_ids(l1_block, timeout);
    assert forall|id: ChannelId| #[trigger]
        after.channels.contains_key(id) <==> side.channels.contains_key(id) && !pred(id) by {
        lemma_filter_members(side.channel_order, pred, id);
        assert(side.channels.contains_key(id) <==> side.channel_order.contains(id));
        assert(expired.to_set().contains(id) <==> expired.contains(id));
    }
    lemma_kept_channels(side, after, side_state::negated(pred));
    lemma_filter_partition(side.channel_order, pred);
    if after.expired_ids(l1_block, timeout).len() > 0 {
        let id = after.expired_ids(l1_block, timeout)[0];
        after.channel_order.lemma_filter_pred(
            side_state::is_expired(after.channels, l1_block, timeout),
            0,
        );
        assert(after.channels.contains_key(id));
    }
}

/// Where no complete channel is left, eviction removes incomplete channels only
/// and leaves no complete one either.
pub proof fn law_evict_removes_incomplete_channels(side: SideView, l1_block: u64, timeout: u64)
    requires
        side.well_formed(),
        side.ready_ids().len() == 0,
    ensures
        forall|id: ChannelId|
            side.expired_ids(l1_block, timeout).contains(id) ==> !(#[trigger] side.channels[id]).ready,
        side.without_expired(l1_block, timeout).ready_ids().len() == 0,
{
    let after = side.without_expired(l1_block, timeout);
    law_evict_removes_exactly_expired(side, l1_block, timeout);
    assert forall|id: ChannelId| #[trigger] side.channels.contains_key(id) implies !(
    side.channels[id]).ready by {
        lemma_filter_members(side.channel_order, side_state::is_ready(side.channels), id);
        if side.channels[id].ready {
            assert(side.ready_ids().contains(id));
        }
    }
    assert forall|id: ChannelId| side.expired_ids(l1_block, timeout).contains(id) implies !(
    #[trigger] side.channels[id]).ready by {
        lemma_filter_members(
            side.channel_order,
            side_state::is_expired(side.channels, l1_block, timeout),
            id,
        );
        assert(side.channels.contains_key(id));
    }
    if after.ready_ids().len() > 0 {
        let id = after.ready_ids()[0];
        after.channel_order.lemma_filter_pred(side_state::is_ready(after.channels), 0);
        assert(after.channels.contains_key(id));
        assert(side.channels.contains_key(id));
    }
}

/// Every element of a list satisfies a predicate or its negation.
proof fn lemma_filter_partition(list: Seq<ChannelId>, pred: spec_fn(ChannelId) -> bool)
    ensures
        list.filter(pred).len() + list.filter(side_state::negated(pred)).len() == list.len(),
    decreases list.len(),
{
    reveal(Seq::filter);
    if list.len() > 0 {
        lemma_filter_partition(list.drop_last(), pred);
    }
}

/// The blocks that wait on a side are those that find a partner and those that
/// keep waiting, below every timestamp.
proof fn lemma_blocks_conserved(own: L2Queues, other: L2Queues, end: nat)
    requires
        end <= l2_queue::timestamp_end(),
    ensures
        l2_queue::blocks_below(own, end) == l2_queue::blocks_below(
            comparison::unpaired(own, other),
            end,
        ) + comparison::l2_pairs_below(own, other, end).len(),
    decreases end,
{
    if end > 0 {
        lemma_blocks_conserved(own, other, (end - 1) as nat);
        let t = (end - 1) as u64;
        let after = comparison::unpaired(own, other);
        assert(l2_queue::waiting_at(own, t).len() == l2_queue::waiting_at(after, t).len()
            + comparison::l2_pairs_at(own, other, t).len());
    }
}

/// Both sides form equally many pairs.
proof fn lemma_pairs_symmetric(left: L2Queues, right: L2Queues, end: nat)
    ensures
        comparison::l2_pairs_below(left, right, end).len() == comparison::l2_pairs_below(
            right,
            left,
            end,
        ).len(),
    decreases end,
{
    if end > 0 {
        lemma_pairs_symmetric(left, right, (end - 1) as nat);
    }
}

/// A comparison of L2 blocks loses none: on each side, the blocks that waited
/// before are those compared and those that still wait.
pub proof fn law_l2_blocks_are_conserved(state: StateView)
    ensures
        state.waiting_l2_blocks(ParitySide::Canonical) == state.after_compare().waiting_l2_blocks(
            ParitySide::Canonical,
        ) + state.l2_pairs().len(),
        state.waiting_l2_blocks(ParitySide::Shadow) == state.after_compare().waiting_l2_blocks(
            ParitySide::Shadow,
        ) + state.l2_pairs().len(),
        comparison::l2_matches(state.l2_pairs()) + comparison::l2_mismatches(state.l2_pairs())
            == state.l2_pairs().len(),
{
    let cq = state.canonical.l2_blocks;
    let sq = state.shadow.l2_blocks;
    lemma_blocks_conserved(cq, sq, l2_queue::timestamp_end());
    lemma_blocks_conserved(sq, cq, l2_queue::timestamp_end());
    lemma_pairs_symmetric(cq, sq, l2_queue::timestamp_end());
    comparison::lemma_l2_pairs_counted(state.l2_pairs());
}

/// A comparison of batches loses none: the pairs leave the fronts of both
/// queues, every other batch keeps waiting in its place, and one queue ends
/// empty. The difference between the queue lengths does not change.
pub proof fn law_unpaired_batches_keep_waiting(state: StateView)
    ensures
        ({
            let after = state.after_compare();
            let count = state.batch_pairs() as int;
            &&& after.canonical.batches == state.canonical.batches.skip(count)
            &&& after.shadow.batches == state.shadow.batches.skip(count)
            &&& after.canonical.batches.len() == 0 || after.shadow.batches.len() == 0
            &&& after.batch_drift() == state.batch_drift()
            &&& state.batch_matches() <= state.batch_pairs()
        }),
{
    lemma_batch_matches_bound(state.canonical.batches, state.shadow.batches, state.batch_pairs());
}

proof fn lemma_batch_matches_bound(
    canonical: Seq<NormalizedBatch>,
    shadow: Seq<NormalizedBatch>,
    count: nat,
)
    ensures
        comparison::batch_matches(canonical, shadow, count) <= count,
    decreases count,
{
    if count > 0 {
        lemma_batch_matches_bound(canonical, shadow, (count - 1) as nat);
    }
}

/// Blocks that wait at one timestamp only are as many as that queue holds, and
/// empty queues hold none.
pub proof fn law_total_of_one_timestamp(queues: L2Queues, timestamp: u64)
    requires
        forall|t: u64| t != timestamp ==> #[trigger] l2_queue::waiting_at(queues, t).len() == 0,
    ensures
        l2_queue::block_total(queues) == l2_queue::waiting_at(queues, timestamp).len(),
{
    let end = l2_queue::timestamp_end();
    l2_queue::lemma_blocks_below_gap(queues, 0, timestamp as nat);
    l2_queue::lemma_blocks_below_gap(queues, (timestamp + 1) as nat, end);
    assert(((timestamp + 1) - 1) as u64 == timestamp);
}

proof fn lemma_pairs_of_one_timestamp(
    canonical: L2Queues,
    shadow: L2Queues,
    timestamp: u64,
    end: nat,
)
    requires
        end <= l2_queue::timestamp_end(),
        forall|t: u64|
            t != timestamp ==> l2_queue::waiting_at(canonical, t).len() == 0
                || l2_queue::waiting_at(shadow, t).len() == 0,
    ensures
        comparison::l2_pairs_below(canonical, shadow, end) == (if end <= timestamp {
            Seq::<L2Pair>::empty()
        } else {
            comparison::l2_pairs_at(canonical, shadow, timestamp)
        }),
    decreases end,
{
    if end > 0 {
        let t = (end - 1) as u64;
        lemma_pairs_of_one_timestamp(canonical, shadow, timestamp, (end - 1) as nat);
        if t != timestamp {
            assert(l2_queue::waiting_at(canonical, t).len() == 0 || l2_queue::waiting_at(
                shadow,
                t,
            ).len() == 0);
            assert(comparison::l2_pairs_at(canonical, shadow, t) =~= Seq::empty());
        }
        assert(comparison::l2_pairs_below(canonical, shadow, end) =~= (if end <= timestamp {
            Seq::<L2Pair>::empty()
        } else {
            comparison::l2_pairs_at(canonical, shadow, timestamp)
        }));
    }
}

/// Blocks are compared with blocks of their own timestamp only: where both
/// sides share at most one timestamp, its pairs are all there is to compare.
pub proof fn law_pairs_of_one_timestamp(state: StateView, timestamp: u64)
    requires
        forall|t: u64|
            t != timestamp ==> l2_queue::waiting_at(state.canonical.l2_blocks, t).len() == 0
                || l2_queue::waiting_at(state.shadow.l2_blocks, t).len() == 0,
    ensures
        state.l2_pairs() == state.l2_pairs_at(timestamp),
{
    lemma_pairs_of_one_timestamp(
        state.canonical.l2_blocks,
        state.shadow.l2_blocks,
        timestamp,
        l2_queue::timestamp_end(),
    );
}

proof fn lemma_batch_divergences_counted(
    canonical: Seq<NormalizedBatch>,
    shadow: Seq<NormalizedBatch>,
    count: nat,
    l1_block: u64,
)
    ensures
        comparison::batch_divergences(canonical, shadow, count, l1_block).len()
            + comparison::batch_matches(canonical, shadow, count) == count,
    decreases count,
{
    if count > 0 {
        lemma_batch_divergences_counted(canonical, shadow, (count - 1) as nat, l1_block);
    }
}

proof fn lemma_l2_divergences_counted(pairs: Seq<L2Pair>, l1_block: u64)
    ensures
        comparison::l2_divergences(pairs, l1_block).len() == comparison::l2_mismatches(pairs),
    decreases pairs.len(),
{
    if pairs.len() > 0 {
        lemma_l2_divergences_counted(pairs.drop_last(), l1_block);
    }
}

/// Every divergence of a comparison is recorded once: there are as many records
/// as pairs of batches and pairs of blocks that differ.
pub proof fn law_every_divergence_is_recorded(state: StateView, l1_block: u64)
    ensures
        state.divergences(l1_block).len() == state.batch_pairs() - state.batch_matches()
            + comparison::l2_mismatches(state.l2_pairs()),
{
    lemma_batch_divergences_counted(
        state.canonical.batches,
        state.shadow.batches,
        state.batch_pairs(),
        l1_block,
    );
    lemma_l2_divergences_counted(state.l2_pairs(), l1_block);
}

/// A comparison leaves no timestamp at which blocks wait on both sides.
pub proof fn law_compare_leaves_no_l2_pair(state: StateView, timestamp: u64)
    ensures
        l2_queue::waiting_at(state.after_compare().canonical.l2_blocks, timestamp).len() == 0
            || l2_queue::waiting_at(state.after_compare().shadow.l2_blocks, timestamp).len() == 0,
{
}

proof fn lemma_no_pairs_below(canonical: L2Queues, shadow: L2Queues, end: nat)
    requires
        end <= l2_queue::timestamp_end(),
        forall|t: u64|
            l2_queue::waiting_at(canonical, t).len() == 0 || l2_queue::waiting_at(shadow, t).len()
                == 0,
    ensures
        comparison::l2_pairs_below(canonical, shadow, end) == Seq::<L2Pair>::empty(),
    decreases end,
{
    if end > 0 {
        lemma_no_pairs_below(canonical, shadow, (end - 1) as nat);
        let t = (end - 1) as u64;
        assert(l2_queue::waiting_at(canonical, t).len() == 0 || l2_queue::waiting_at(
            shadow,
            t,
        ).len() == 0);
        assert(comparison::l2_pairs_at(canonical, shadow, t) =~= Seq::empty());
        assert(comparison::l2_pairs_below(canonical, shadow, end) =~= Seq::empty());
    }
}

/// A second comparison pass finds nothing to compare and changes nothing.
pub proof fn law_compare_is_idempotent(state: StateView, l1_block: u64)
    ensures
        state.after_compare().after_compare() == state.after_compare(),
        state.after_compare().compare_stats().matches == 0,
        state.after_compare().compare_stats().divergences == 0,
        state.after_compare().compare_stats().l2_block_matches == 0,
        state.after_compare().compare_stats().l2_block_mismatches == 0,
        state.after_compare().compare_events(l1_block) == Seq::<MetricEvent>::empty(),
        state.after_compare().divergences(l1_block).len() == 0,
{
    let once = state.after_compare();
    let cq = once.canonical.l2_blocks;
    let sq = once.shadow.l2_blocks;
    law_unpaired_batches_keep_waiting(state);
    assert(once.batch_pairs() == 0);
    assert forall|t: u64|
        l2_queue::waiting_at(cq, t).len() == 0 || l2_queue::waiting_at(sq, t).len() == 0 by {
        law_compare_leaves_no_l2_pair(state, t);
    }
    lemma_no_pairs_below(cq, sq, l2_queue::timestamp_end());
    assert(once.canonical.batches.skip(0) =~= once.canonical.batches);
    assert(once.shadow.batches.skip(0) =~= once.shadow.batches);
    lemma_unpaired_alone(cq, sq);
    lemma_unpaired_alone(sq, cq);
    assert(once.compare_events(l1_block) =~= Seq::empty());
}

proof fn lemma_unpaired_alone(own: L2Queues, other: L2Queues)
    requires
        forall|t: u64|
            l2_queue::waiting_at(own, t).len() == 0 || l2_queue::waiting_at(other, t).len() == 0,
    ensures
        comparison::unpaired(own, other) == own,
{
    let after = comparison::unpaired(own, other);
    assert forall|t: u64| own.contains_key(t) implies after.contains_key(t) && after[t]
        == own[t] by {
        assert(l2_queue::waiting_at(own, t).len() == 0 || l2_queue::waiting_at(other, t).len()
            == 0);
        assert(own[t].skip(0) =~= own[t]);
    }
    assert(after =~= own);
}

/// The state with its sides exchanged.
pub open spec fn exchanged(state: StateView) -> StateView {
    StateView { canonical: state.shadow, shadow: state.canonical, ..state }
}

proof fn lemma_batch_matches_symmetric(
    canonical: Seq<NormalizedBatch>,
    shadow: Seq<NormalizedBatch>,
    count: nat,
)
    ensures
        comparison::batch_matches(canonical, shadow, count) == comparison::batch_matches(
            shadow,
            canonical,
            count,
        ),
    decreases count,
{
    if count > 0 {
        lemma_batch_matches_symmetric(canonical, shadow, (count - 1) as nat);
    }
}

/// A pair with its blocks exchanged.
spec fn exchanged_pair(pair: L2Pair) -> L2Pair {
    L2Pair { timestamp: pair.timestamp, canonical: pair.shadow, shadow: pair.canonical }
}

/// Pairs with their blocks exchanged.
spec fn exchanged_pairs(pairs: Seq<L2Pair>) -> Seq<L2Pair> {
    pairs.map_values(|pair: L2Pair| exchanged_pair(pair))
}

proof fn lemma_pairs_exchange(canonical: L2Queues, shadow: L2Queues, end: nat)
    ensures
        comparison::l2_pairs_below(shadow, canonical, end) == exchanged_pairs(
            comparison::l2_pairs_below(canonical, shadow, end),
        ),
    decreases end,
{
    if end > 0 {
        let t = (end - 1) as u64;
        lemma_pairs_exchange(canonical, shadow, (end - 1) as nat);
        assert(comparison::l2_pairs_at(shadow, canonical, t) =~= exchanged_pairs(
            comparison::l2_pairs_at(canonical, shadow, t),
        ));
    }
    assert(comparison::l2_pairs_below(shadow, canonical, end) =~= exchanged_pairs(
        comparison::l2_pairs_below(canonical, shadow, end),
    ));
}

proof fn lemma_counts_symmetric(pairs: Seq<L2Pair>)
    ensures
        comparison::l2_matches(exchanged_pairs(pairs)) == comparison::l2_matches(pairs),
        comparison::l2_mismatches(exchanged_pairs(pairs)) == comparison::l2_mismatches(pairs),
    decreases pairs.len(),
{
    if pairs.len() > 0 {
        lemma_counts_symmetric(pairs.drop_last());
        assert(exchanged_pairs(pairs).drop_last() =~= exchanged_pairs(pairs.drop_last()));
        assert(exchanged_pair(pairs.last()).matches() == pairs.last().matches());
    }
}

/// Which side is the canonical one does not matter: a comparison with the sides
/// exchanged counts the same matches and divergences.
pub proof fn law_comparison_is_symmetric(state: StateView)
    ensures
        exchanged(state).compare_stats() == state.compare_stats(),
{
    lemma_batch_matches_symmetric(
        state.canonical.batches,
        state.shadow.batches,
        state.batch_pairs(),
    );
    lemma_pairs_exchange(
        state.canonical.l2_blocks,
        state.shadow.l2_blocks,
        l2_queue::timestamp_end(),
    );
    lemma_counts_symmetric(state.l2_pairs());
}

/// A comparison pass keeps the state well formed.
pub proof fn law_compare_keeps_state(state: StateView)
    requires
        state.well_formed(),
    ensures
        state.after_compare().well_formed(),
{
    lemma_unpaired_well_formed(state.canonical.l2_blocks, state.shadow.l2_blocks);
    lemma_unpaired_well_formed(state.shadow.l2_blocks, state.canonical.l2_blocks);
}

proof fn lemma_unpaired_well_formed(own: L2Queues, other: L2Queues)
    requires
        l2_queue::queues_well_formed(own),
    ensures
        l2_queue::queues_well_formed(comparison::unpaired(own, other)),
{
    let after = comparison::unpaired(own, other);
    assert forall|t: u64| #[trigger] after.contains_key(t) implies after[t].len() > 0 && forall|
        i: int,
    | 0 <= i < after[t].len() ==> (#[trigger] after[t][i]).timestamp == t by {
        assert(own.contains_key(t));
        let skipped = comparison::shorter(
            own[t].len(),
            l2_queue::waiting_at(other, t).len(),
        ) as int;
        assert forall|i: int| 0 <= i < after[t].len() implies (#[trigger] after[t][i]).timestamp
            == t by {
            assert(after[t][i] == own[t][i + skipped]);
        }
    }
}

/// What a comparison finds does not depend on how submissions were split into
/// channels and frames.
pub proof fn law_framing_is_irrelevant(left: StateView, right: StateView, l1_block: u64)
    requires
        left.canonical.batches == right.canonical.batches,
        left.shadow.batches == right.shadow.batches,
        left.canonical.l2_blocks == right.canonical.l2_blocks,
        left.shadow.l2_blocks == right.shadow.l2_blocks,
    ensures
        left.compare_stats() == right.compare_stats(),
        left.compare_events(l1_block) == right.compare_events(l1_block),
        left.divergences(l1_block) == right.divergences(l1_block),
{
}

proof fn lemma_same_batches_match(
    canonical: Seq<NormalizedBatch>,
    shadow: Seq<NormalizedBatch>,
    count: nat,
)
    requires
        count <= canonical.len(),
        forall|i: int| 0 <= i < canonical.len() ==> (#[trigger] canonical[i])@ == shadow[i]@,
    ensures
        comparison::batch_matches(canonical, shadow, count) == count,
    decreases count,
{
    if count > 0 {
        lemma_same_batches_match(canonical, shadow, (count - 1) as nat);
        assert(canonical[count - 1]@ == shadow[count - 1]@);
    }
}

/// Both sides wait with the same blocks, up to content.
pub open spec fn same_l2_content(left: L2Queues, right: L2Queues) -> bool {
    forall|t: u64|
        {
            &&& l2_queue::waiting_at(left, t).len() == (#[trigger] l2_queue::waiting_at(
                right,
                t,
            )).len()
            &&& forall|i: int|
                0 <= i < l2_queue::waiting_at(left, t).len() ==> (
                #[trigger] l2_queue::waiting_at(left, t)[i]).same_content(
                    l2_queue::waiting_at(right, t)[i],
                )
        }
}

proof fn lemma_same_content_matches(canonical: L2Queues, shadow: L2Queues, end: nat)
    requires
        end <= l2_queue::timestamp_end(),
        same_l2_content(canonical, shadow),
    ensures
        forall|i: int|
            0 <= i < comparison::l2_pairs_below(canonical, shadow, end).len() ==> (
            #[trigger] comparison::l2_pairs_below(canonical, shadow, end)[i]).matches(),
        comparison::l2_pairs_below(canonical, shadow, end).len() == l2_queue::blocks_below(
            canonical,
            end,
        ),
        l2_queue::blocks_below(canonical, end) == l2_queue::blocks_below(shadow, end),
    decreases end,
{
    if end > 0 {
        lemma_same_content_matches(canonical, shadow, (end - 1) as nat);
        let t = (end - 1) as u64;
        assert(l2_queue::waiting_at(canonical, t).len() == l2_queue::waiting_at(shadow, t).len());
        let earlier = comparison::l2_pairs_below(canonical, shadow, (end - 1) as nat);
        let last = comparison::l2_pairs_at(canonical, shadow, t);
        assert forall|i: int| 0 <= i < (earlier + last).len() implies (
        #[trigger] (earlier + last)[i]).matches() by {
            if i >= earlier.len() {
                let k = i - earlier.len();
                assert(l2_queue::waiting_at(canonical, t)[k].same_content(
                    l2_queue::waiting_at(shadow, t)[k],
                ));
            } else {
                assert((earlier + last)[i] == earlier[i]);
            }
        }
    }
}

proof fn lemma_all_match(pairs: Seq<L2Pair>)
    requires
        forall|i: int| 0 <= i < pairs.len() ==> (#[trigger] pairs[i]).matches(),
    ensures
        comparison::l2_matches(pairs) == pairs.len(),
        comparison::l2_mismatches(pairs) == 0,
    decreases pairs.len(),
{
    if pairs.len() > 0 {
        assert forall|i: int| 0 <= i < pairs.drop_last().len() implies (
        #[trigger] pairs.drop_last()[i]).matches() by {
            assert(pairs[i].matches());
        }
        lemma_all_match(pairs.drop_last());
        assert(pairs[pairs.len() - 1].matches());
    }
}

/// Sides that wait with the same batches and the same blocks compare without
/// divergence, nothing keeps waiting, and if anything was compared the state
/// is aligned afterwards.
pub proof fn law_equal_sides_are_aligned(state: StateView)
    requires
        state.canonical.batches.len() == state.shadow.batches.len(),
        forall|i: int|
            0 <= i < state.canonical.batches.len() ==> (#[trigger] state.canonical.batches[i])@
                == state.shadow.batches[i]@,
        same_l2_content(state.canonical.l2_blocks, state.shadow.l2_blocks),
    ensures
        state.batch_matches() == state.batch_pairs(),
        comparison::l2_mismatches(state.l2_pairs()) == 0,
        state.after_compare().canonical.batches.len() == 0,
        state.after_compare().shadow.batches.len() == 0,
        state.after_compare().waiting_l2_blocks(ParitySide::Canonical) == 0,
        state.after_compare().waiting_l2_blocks(ParitySide::Shadow) == 0,
        state.l2_pairs().len() > 0 ==> state.after_compare().alignment() == Some(true),
        state.batch_pairs() > 0 && state.l2_pairs().len() == 0 && state.last_l2_result is None
            ==> state.after_compare().alignment() == Some(true),
{
    let cq = state.canonical.l2_blocks;
    let sq = state.shadow.l2_blocks;
    let count = state.batch_pairs();
    lemma_same_batches_match(state.canonical.batches, state.shadow.batches, count);
    lemma_same_content_matches(cq, sq, l2_queue::timestamp_end());
    lemma_all_match(state.l2_pairs());
    law_l2_blocks_are_conserved(state);
    let pairs = state.l2_pairs();
    if pairs.len() > 0 {
        assert(pairs[pairs.len() - 1].matches());
    }
    if count > 0 {
        assert(state.canonical.batches[count - 1]@ == state.shadow.batches[count - 1]@);
    }
}

/// Alignment is reported only where nothing of the compared kind waits: a state
/// in which blocks or, before any block was compared, batches wait is not
/// aligned.
pub proof fn law_lag_is_not_alignment(state: StateView)
    requires
        state.alignment() == Some(true),
    ensures
        state.last_l2_result is Some ==> state.waiting_l2_blocks(ParitySide::Canonical) == 0
            && state.waiting_l2_blocks(ParitySide::Shadow) == 0,
        state.last_l2_result is None ==> state.canonical.batches.len() == 0
            && state.shadow.batches.len() == 0,
{
}

/// A drift that does not change is reported once: right after a drift check, a
/// second check gives no warning.
pub proof fn law_drift_is_reported_once(state: StateView, l1_block: u64, later_block: u64)
    requires
        state.batch_drift() <= usize::MAX,
    ensures
        state.after_drift_check().drift_warning(later_block) is None,
        state.after_drift_check().after_drift_check() == state.after_drift_check(),
        state.drift_warning(l1_block) is Some ==> state.batch_drift()
            >= crate::parity_state::PENDING_QUEUE_DRIFT_WARN_THRESHOLD,
{
}

/// A mismatch has exactly one reason, and it holds: the origins differ, or the
/// origins agree and the transaction counts differ, or both agree and some
/// transaction hash differs.
pub proof fn law_mismatch_reason_holds(pair: L2Pair)
    requires
        !pair.matches(),
    ensures
        match pair.reason() {
            comparison::L2MismatchReason::Origin => pair.canonical.epoch_num
                != pair.shadow.epoch_num,
            comparison::L2MismatchReason::TxCount => pair.canonical.epoch_num
                == pair.shadow.epoch_num && pair.canonical.tx_hashes@.len()
                != pair.shadow.tx_hashes@.len(),
            comparison::L2MismatchReason::TxHash => pair.canonical.epoch_num
                == pair.shadow.epoch_num && pair.canonical.tx_hashes@.len()
                == pair.shadow.tx_hashes@.len() && exists|i: int|
                0 <= i < pair.canonical.tx_hashes@.len() && #[trigger] pair.canonical.tx_hashes@[i]
                    != pair.shadow.tx_hashes@[i],
        },
{
    if pair.reason() == comparison::L2MismatchReason::TxHash {
        if forall|i: int|
            0 <= i < pair.canonical.tx_hashes@.len() ==> #[trigger] pair.canonical.tx_hashes@[i]
                == pair.shadow.tx_hashes@[i] {
            assert(pair.canonical.tx_hashes@ =~= pair.shadow.tx_hashes@);
        }
    }
}

} // verus!
