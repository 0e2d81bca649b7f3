//! Laws of how a side takes in payloads: what frames do to channels, what
//! complete channels leave in the queues, and which channels are evicted.

use crate::channel::{
    BlobDecodeError, BlockInfo, Channel, ChannelId, ChannelView, DerivationCodec, Frame,
    FrameOutcome, FrameParseError, NormalizedChannel,
};
use crate::error::ParityError;
use crate::l2_queue;
use crate::l2_queue::L2Queues;
use crate::metrics::{Counter, MetricEvent};
use crate::normalized::{NormalizedBatch, NormalizedL2Block};
use crate::parity_laws;
use crate::parity_state::StateView;
use crate::side_state;
use crate::side_state::{DrainView, IngestedPayload, SideView};
use vstd::prelude::*;

verus! {

/// Some frame belongs to the channel.
pub open spec fn has_frame(frames: Seq<Frame>, id: ChannelId) -> bool {
    exists|i: int| 0 <= i < frames.len() && (#[trigger] frames[i]).id == id
}

proof fn lemma_has_frame_step(frames: Seq<Frame>, id: ChannelId)
    requires
        frames.len() > 0,
    ensures
        has_frame(frames, id) <==> has_frame(frames.drop_last(), id) || frames.last().id == id,
{
    let front = frames.drop_last();
    if has_frame(frames, id) {
        let i = choose|i: int| 0 <= i < frames.len() && (#[trigger] frames[i]).id == id;
        if i < front.len() {
            assert(front[i].id == id);
        }
    }
    if has_frame(front, id) {
        let i = choose|i: int| 0 <= i < front.len() && (#[trigger] front[i]).id == id;
        assert(frames[i].id == id);
    }
    assert(frames[frames.len() - 1] == frames.last());
}

/// Handing frames to a side never changes the opening block of a channel that is
/// already there, and a channel that is new has the block of its first frame. A
/// side gains exactly the channels that its frames belong to, a channel without
/// a frame does not change at all, and the queues do not change either.
pub proof fn law_frames_keep_opening_blocks(
    side: SideView,
    frames: Seq<Frame>,
    block: BlockInfo,
    outcomes: Seq<FrameOutcome>,
    id: ChannelId,
)
    ensures
        ({
            let after = side.after_frames(frames, block, outcomes);
            &&& after.channels.contains_key(id) <==> side.channels.contains_key(id) || has_frame(
                frames,
                id,
            )
            &&& side.channels.contains_key(id) ==> after.channels[id].open_block
                == side.channels[id].open_block
            &&& !side.channels.contains_key(id) && has_frame(frames, id)
                ==> after.channels[id].open_block == block
            &&& side.channels.contains_key(id) ==> after.channels[id].id == side.channels[id].id
            &&& !side.channels.contains_key(id) && has_frame(frames, id) ==> after.channels[id].id
                == id
            &&& side.channels.contains_key(id) && !has_frame(frames, id) ==> after.channels[id]
                == side.channels[id]
            &&& after.batches == side.batches
            &&& after.l2_blocks == side.l2_blocks
        }),
    decreases frames.len(),
{
    if frames.len() > 0 {
        law_frames_keep_opening_blocks(side, frames.drop_last(), block, outcomes.drop_last(), id);
        lemma_has_frame_step(frames, id);
    }
}

/// A channel keeps every frame that was handed to it behind those that it had,
/// in the order they came, each with its inclusion block, and no others.
pub proof fn law_channels_keep_their_frames(
    side: SideView,
    frames: Seq<Frame>,
    block: BlockInfo,
    outcomes: Seq<FrameOutcome>,
    id: ChannelId,
)
    requires
        side.channels.contains_key(id) || has_frame(frames, id),
    ensures
        ({
            let earlier = if side.channels.contains_key(id) {
                side.channels[id].frames
            } else {
                Seq::empty()
            };
            side.after_frames(frames, block, outcomes).channels[id].frames == earlier
                + frames.filter(|frame: Frame| frame.id == id).map_values(
                |frame: Frame| (frame, block),
            )
        }),
    decreases frames.len(),
{
    let pred = |frame: Frame| frame.id == id;
    let tag = |frame: Frame| (frame, block);
    let earlier: Seq<(Frame, BlockInfo)> = if side.channels.contains_key(id) {
        side.channels[id].frames
    } else {
        Seq::empty()
    };
    let after = side.after_frames(frames, block, outcomes);
    reveal(Seq::filter);
    if frames.len() == 0 {
        assert(earlier + frames.filter(pred).map_values(tag) =~= earlier);
    } else {
        let front = frames.drop_last();
        let before = side.after_frames(front, block, outcomes.drop_last());
        lemma_has_frame_step(frames, id);
        law_frames_keep_opening_blocks(side, front, block, outcomes.drop_last(), id);
        if side.channels.contains_key(id) || has_frame(front, id) {
            law_channels_keep_their_frames(side, front, block, outcomes.drop_last(), id);
            if frames.last().id == id {
                assert(frames.filter(pred).map_values(tag) =~= front.filter(pred).map_values(
                    tag,
                ).push((frames.last(), block)));
                assert(after.channels[id].frames =~= earlier + frames.filter(pred).map_values(
                    tag,
                ));
            }
        } else {
            assert(front.filter(pred) =~= Seq::empty()) by {
                if front.filter(pred).len() > 0 {
                    front.filter_lemma(pred);
                    let found = front.filter(pred)[0];
                    assert(pred(found));
                    assert(front.filter(pred).contains(found));
                    lemma_filtered_frame(front, id, found);
                }
            }
            assert(after.channels[id].frames =~= earlier + frames.filter(pred).map_values(tag));
        }
    }
}

proof fn lemma_filtered_frame(frames: Seq<Frame>, id: ChannelId, frame: Frame)
    requires
        frames.filter(|frame: Frame| frame.id == id).contains(frame),
    ensures
        has_frame(frames, id),
    decreases frames.len(),
{
    reveal(Seq::filter);
    let pred = |frame: Frame| frame.id == id;
    if frames.len() > 0 {
        lemma_has_frame_step(frames, id);
        if frames.last().id != id {
            lemma_filtered_frame(frames.drop_last(), id, frame);
        }
    } else {
        let k = frames.filter(pred).index_of(frame);
        assert(frames.filter(pred)[k] == frame);
    }
}

/// The last frame of a channel decides whether the channel is complete.
pub proof fn law_last_frame_decides_completeness(
    side: SideView,
    frames: Seq<Frame>,
    block: BlockInfo,
    outcomes: Seq<FrameOutcome>,
    k: int,
)
    requires
        outcomes.len() == frames.len(),
        0 <= k < frames.len(),
        forall|j: int| k < j < frames.len() ==> (#[trigger] frames[j]).id != frames[k].id,
    ensures
        side.after_frames(frames, block, outcomes).channels[frames[k].id].ready
            == outcomes[k].ready,
    decreases frames.len(),
{
    if k < frames.len() - 1 {
        let front = frames.drop_last();
        assert forall|j: int| k < j < front.len() implies (#[trigger] front[j]).id
            != front[k].id by {
            assert(front[j] == frames[j]);
        }
        law_last_frame_decides_completeness(side, front, block, outcomes.drop_last(), k);
        assert(frames[frames.len() - 1].id != frames[k].id);
    }
}

/// The first-seen order only grows at its end: what is known of it after the
/// first frames is how it begins after all of them. A frame of a channel that is
/// not there appends that channel; another frame appends nothing.
pub proof fn law_order_grows_at_its_end(
    side: SideView,
    frames: Seq<Frame>,
    block: BlockInfo,
    outcomes: Seq<FrameOutcome>,
    count: int,
)
    requires
        outcomes.len() == frames.len(),
        0 <= count <= frames.len(),
    ensures
        ({
            let early = side.after_frames(frames.take(count), block, outcomes.take(count));
            let late = side.after_frames(frames, block, outcomes);
            &&& early.channel_order.len() <= late.channel_order.len()
            &&& late.channel_order.take(early.channel_order.len() as int) == early.channel_order
            &&& count == frames.len() - 1 && early.channels.contains_key(frames[count].id)
                ==> late.channel_order == early.channel_order
            &&& count == frames.len() - 1 && !early.channels.contains_key(frames[count].id)
                ==> late.channel_order == early.channel_order.push(frames[count].id)
        }),
    decreases frames.len(),
{
    let early = side.after_frames(frames.take(count), block, outcomes.take(count));
    let late = side.after_frames(frames, block, outcomes);
    if count == frames.len() {
        assert(frames.take(count) =~= frames);
        assert(outcomes.take(count) =~= outcomes);
        assert(late.channel_order.take(early.channel_order.len() as int)
            =~= early.channel_order);
    } else {
        let front = frames.drop_last();
        let before = side.after_frames(front, block, outcomes.drop_last());
        law_order_grows_at_its_end(side, front, block, outcomes.drop_last(), count);
        assert(front.take(count) =~= frames.take(count));
        assert(outcomes.drop_last().take(count) =~= outcomes.take(count));
        assert(late.channel_order.take(early.channel_order.len() as int)
            =~= before.channel_order.take(early.channel_order.len() as int));
        if count == frames.len() - 1 {
            assert(frames.take(count) =~= front);
            assert(outcomes.take(count) =~= outcomes.drop_last());
        }
    }
}

/// Frames that reached a side together, with their inclusion block and what
/// became of them.
pub struct Delivery {
    pub frames: Seq<Frame>,
    pub block: BlockInfo,
    pub outcomes: Seq<FrameOutcome>,
}

/// The side after deliveries in order.
pub open spec fn after_deliveries(side: SideView, deliveries: Seq<Delivery>) -> SideView
    decreases deliveries.len(),
{
    if deliveries.len() == 0 {
        side
    } else {
        let last = deliveries.last();
        after_deliveries(side, deliveries.drop_last()).after_frames(
            last.frames,
            last.block,
            last.outcomes,
        )
    }
}

/// Whatever frames came since, and in whatever blocks, a channel that is still
/// there has the block in which it was first seen as its opening block. It is
/// evicted at every L1 block more than the timeout after that block, and at no
/// earlier one.
pub proof fn law_channels_expire_by_their_first_block(
    side: SideView,
    deliveries: Seq<Delivery>,
    id: ChannelId,
    l1_block: u64,
    timeout: u64,
)
    requires
        side.well_formed(),
        side.channels.contains_key(id),
    ensures
        ({
            let filled = after_deliveries(side, deliveries);
            let kept = filled.without_expired(l1_block, timeout);
            &&& filled.channels.contains_key(id)
            &&& filled.channels[id].open_block == side.channels[id].open_block
            &&& l1_block > side.channels[id].open_block.number + timeout
                ==> !kept.channels.contains_key(id)
            &&& l1_block <= side.channels[id].open_block.number + timeout
                ==> kept.channels.contains_key(id) && kept.channels[id] == filled.channels[id]
        }),
{
    lemma_deliveries_keep_channel(side, deliveries, id);
    parity_laws::law_evict_removes_exactly_expired(
        after_deliveries(side, deliveries),
        l1_block,
        timeout,
    );
}

proof fn lemma_deliveries_keep_channel(side: SideView, deliveries: Seq<Delivery>, id: ChannelId)
    requires
        side.well_formed(),
        side.channels.contains_key(id),
    ensures
        after_deliveries(side, deliveries).well_formed(),
        after_deliveries(side, deliveries).channels.contains_key(id),
        after_deliveries(side, deliveries).channels[id].open_block
            == side.channels[id].open_block,
    decreases deliveries.len(),
{
    if deliveries.len() > 0 {
        let last = deliveries.last();
        let before = after_deliveries(side, deliveries.drop_last());
        lemma_deliveries_keep_channel(side, deliveries.drop_last(), id);
        parity_laws::law_frames_keep_side(before, last.frames, last.block, last.outcomes);
        law_frames_keep_opening_blocks(before, last.frames, last.block, last.outcomes, id);
    }
}

/// The batches that a decoding gave; a channel that was corrupt gave none.
pub open spec fn batches_of(result: Option<NormalizedChannel>) -> Seq<NormalizedBatch> {
    match result {
        Some(decoded) => decoded.batches@,
        None => Seq::empty(),
    }
}

/// The L2 blocks that a decoding gave; a channel that was corrupt gave none.
pub open spec fn blocks_of(result: Option<NormalizedChannel>) -> Seq<NormalizedL2Block> {
    match result {
        Some(decoded) => decoded.l2_blocks@,
        None => Seq::empty(),
    }
}

/// The lists one after the other.
pub open spec fn all_batches(results: Seq<Option<NormalizedChannel>>) -> Seq<NormalizedBatch> {
    Seq::new(results.len(), |i: int| batches_of(results[i])).flatten()
}

/// The lists one after the other.
pub open spec fn all_blocks(results: Seq<Option<NormalizedChannel>>) -> Seq<NormalizedL2Block> {
    Seq::new(results.len(), |i: int| blocks_of(results[i])).flatten()
}

proof fn lemma_flatten_step<T>(lists: Seq<Seq<T>>)
    requires
        lists.len() > 0,
    ensures
        lists.flatten() == lists.drop_last().flatten() + lists.last(),
{
    lists.lemma_flatten_and_flatten_alt_are_equivalent();
    lists.drop_last().lemma_flatten_and_flatten_alt_are_equivalent();
}

proof fn lemma_all_step(results: Seq<Option<NormalizedChannel>>)
    requires
        results.len() > 0,
    ensures
        all_batches(results) == all_batches(results.drop_last()) + batches_of(results.last()),
        all_blocks(results) == all_blocks(results.drop_last()) + blocks_of(results.last()),
{
    let front = results.drop_last();
    let batches = Seq::new(results.len(), |i: int| batches_of(results[i]));
    let blocks = Seq::new(results.len(), |i: int| blocks_of(results[i]));
    lemma_flatten_step(batches);
    lemma_flatten_step(blocks);
    assert(batches.drop_last() =~= Seq::new(front.len(), |i: int| batches_of(front[i])));
    assert(blocks.drop_last() =~= Seq::new(front.len(), |i: int| blocks_of(front[i])));
}

proof fn lemma_present(side: SideView, ids: Seq<ChannelId>)
    requires
        ids.no_duplicates(),
        ids.len() > 0,
        forall|i: int| 0 <= i < ids.len() ==> side.channels.contains_key(#[trigger] ids[i]),
    ensures
        ids.drop_last().no_duplicates(),
        !ids.drop_last().contains(ids.last()),
        side.channels.contains_key(ids.last()),
        forall|i: int|
            0 <= i < ids.drop_last().len() ==> side.channels.contains_key(
                #[trigger] ids.drop_last()[i],
            ),
{
    let front = ids.drop_last();
    assert(side.channels.contains_key(ids[ids.len() - 1]));
    if front.contains(ids.last()) {
        let k = front.index_of(ids.last());
        assert(ids[k] == ids[ids.len() - 1]);
    }
    assert forall|i: int| 0 <= i < front.len() implies side.channels.contains_key(
        #[trigger] front[i],
    ) by {
        assert(front[i] == ids[i]);
    }
}

/// The number of channels that decoded.
pub open spec fn decoded_count(results: Seq<Option<NormalizedChannel>>) -> nat {
    results.filter(|result: Option<NormalizedChannel>| result is Some).len()
}

proof fn lemma_decoded_count_step(results: Seq<Option<NormalizedChannel>>)
    requires
        results.len() > 0,
    ensures
        decoded_count(results) == decoded_count(results.drop_last()) + (if results.last() is Some {
            1nat
        } else {
            0nat
        }),
{
    reveal(Seq::filter);
}

proof fn lemma_drain(
    side: SideView,
    ids: Seq<ChannelId>,
    results: Seq<Option<NormalizedChannel>>,
)
    requires
        side.well_formed(),
        ids.no_duplicates(),
        results.len() == ids.len(),
        forall|i: int| 0 <= i < ids.len() ==> side.channels.contains_key(#[trigger] ids[i]),
    ensures
        ({
            let drain = side_state::drained(side, ids, results);
            &&& drain.side.batches == side.batches + all_batches(results)
            &&& drain.side.l2_blocks == l2_queue::pushed_all(side.l2_blocks, all_blocks(results))
            &&& drain.complete_channels == decoded_count(results)
            &&& drain.decode_errors == results.len() - decoded_count(results)
            &&& drain.batches == all_batches(results).len()
            &&& drain.l2_blocks == all_blocks(results).len()
        }),
    decreases ids.len(),
{
    let drain = side_state::drained(side, ids, results);
    if ids.len() == 0 {
        reveal(Seq::filter);
        assert(all_batches(results) =~= Seq::empty());
        assert(all_blocks(results) =~= Seq::empty());
        assert(drain.side.batches =~= side.batches + all_batches(results));
    } else {
        let front = ids.drop_last();
        let earlier = results.drop_last();
        lemma_present(side, ids);
        lemma_drain(side, front, earlier);
        parity_laws::law_drain_keeps_side(side, front, earlier);
        lemma_all_step(results);
        lemma_decoded_count_step(results);
        assert(drain.side.batches =~= side.batches + all_batches(results));
        lemma_pushed_all_join(side.l2_blocks, all_blocks(earlier), blocks_of(results.last()));
        if results.last() is None {
            assert(all_blocks(earlier) + blocks_of(results.last()) =~= all_blocks(earlier));
        }
    }
}

proof fn lemma_pushed_all_join(
    queues: L2Queues,
    left: Seq<NormalizedL2Block>,
    right: Seq<NormalizedL2Block>,
)
    ensures
        l2_queue::pushed_all(queues, left + right) == l2_queue::pushed_all(
            l2_queue::pushed_all(queues, left),
            right,
        ),
    decreases right.len(),
{
    if right.len() == 0 {
        assert(left + right =~= left);
    } else {
        lemma_pushed_all_join(queues, left, right.drop_last());
        assert((left + right).drop_last() =~= left + right.drop_last());
        assert((left + right).last() == right.last());
    }
}

/// Storing blocks appends to each timestamp's queue the blocks with that
/// timestamp, in the order in which they were stored, and nothing else.
pub proof fn law_stored_blocks_queue_in_order(
    queues: L2Queues,
    blocks: Seq<NormalizedL2Block>,
    timestamp: u64,
)
    ensures
        l2_queue::waiting_at(l2_queue::pushed_all(queues, blocks), timestamp)
            == l2_queue::waiting_at(queues, timestamp) + blocks.filter(
            |block: NormalizedL2Block| block.timestamp == timestamp,
        ),
    decreases blocks.len(),
{
    reveal(Seq::filter);
    let pred = |block: NormalizedL2Block| block.timestamp == timestamp;
    let after = l2_queue::waiting_at(l2_queue::pushed_all(queues, blocks), timestamp);
    if blocks.len() > 0 {
        law_stored_blocks_queue_in_order(queues, blocks.drop_last(), timestamp);
    }
    assert(after =~= l2_queue::waiting_at(queues, timestamp) + blocks.filter(pred));
}

/// What drained channels decoded to is queued in order: the queue of batches
/// keeps what it had in front, and behind it stand the batches of the channels
/// in the order in which the channels were drained, each channel's batches in
/// their own order. The L2 blocks join the queues of their timestamps alike.
pub proof fn law_drain_queues_in_order(
    side: SideView,
    ids: Seq<ChannelId>,
    results: Seq<Option<NormalizedChannel>>,
    timestamp: u64,
)
    requires
        side.well_formed(),
        ids.no_duplicates(),
        results.len() == ids.len(),
        forall|i: int| 0 <= i < ids.len() ==> side.channels.contains_key(#[trigger] ids[i]),
    ensures
        ({
            let after = side_state::drained(side, ids, results).side;
            let batches = Seq::new(
                results.len(),
                |i: int|
                    match results[i] {
                        Some(decoded) => decoded.batches@,
                        None => Seq::empty(),
                    },
            ).flatten();
            let blocks = Seq::new(
                results.len(),
                |i: int|
                    match results[i] {
                        Some(decoded) => decoded.l2_blocks@,
                        None => Seq::empty(),
                    },
            ).flatten();
            &&& after.batches == side.batches + batches
            &&& l2_queue::waiting_at(after.l2_blocks, timestamp) == l2_queue::waiting_at(
                side.l2_blocks,
                timestamp,
            ) + blocks.filter(|block: NormalizedL2Block| block.timestamp == timestamp)
        }),
{
    lemma_drain(side, ids, results);
    assert(Seq::new(
        results.len(),
        |i: int|
            match results[i] {
                Some(decoded) => decoded.batches@,
                None => Seq::empty(),
            },
    ) =~= Seq::new(results.len(), |i: int| batches_of(results[i])));
    assert(Seq::new(
        results.len(),
        |i: int|
            match results[i] {
                Some(decoded) => decoded.l2_blocks@,
                None => Seq::empty(),
            },
    ) =~= Seq::new(results.len(), |i: int| blocks_of(results[i])));
    law_stored_blocks_queue_in_order(side.l2_blocks, all_blocks(results), timestamp);
}

/// Draining keeps every batch that waited in its place. The k-th batch of the
/// first drained channel stands k places behind the last of them.
pub proof fn law_first_channel_follows_the_queue(
    side: SideView,
    ids: Seq<ChannelId>,
    results: Seq<Option<NormalizedChannel>>,
    decoded: NormalizedChannel,
)
    requires
        side.well_formed(),
        ids.no_duplicates(),
        ids.len() > 0,
        results.len() == ids.len(),
        results[0] == Some(decoded),
        forall|i: int| 0 <= i < ids.len() ==> side.channels.contains_key(#[trigger] ids[i]),
    ensures
        ({
            let after = side_state::drained(side, ids, results).side.batches;
            &&& after.len() >= side.batches.len() + decoded.batches@.len()
            &&& forall|i: int|
                0 <= i < side.batches.len() ==> #[trigger] after[i] == side.batches[i]
            &&& forall|k: int|
                0 <= k < decoded.batches@.len() ==> after[side.batches.len() + k]
                    == #[trigger] decoded.batches@[k]
        }),
{
    lemma_drain(side, ids, results);
    let lists = Seq::new(results.len(), |i: int| batches_of(results[i]));
    assert(lists.first() == decoded.batches@);
    assert(lists.flatten() == lists.first() + lists.drop_first().flatten());
    let after = side_state::drained(side, ids, results).side.batches;
    assert forall|k: int| 0 <= k < decoded.batches@.len() implies after[side.batches.len() + k]
        == #[trigger] decoded.batches@[k] by {
        assert(all_batches(results)[k] == lists.first()[k]);
    }
}

/// It does not matter over how many channels a list of batches and blocks is
/// split: drains whose channels decode to the same batches and blocks, one after
/// the other, leave the same queues.
pub proof fn law_split_into_channels_is_irrelevant(
    left: SideView,
    right: SideView,
    left_ids: Seq<ChannelId>,
    right_ids: Seq<ChannelId>,
    left_results: Seq<Option<NormalizedChannel>>,
    right_results: Seq<Option<NormalizedChannel>>,
)
    requires
        left.well_formed(),
        right.well_formed(),
        left_ids.no_duplicates(),
        right_ids.no_duplicates(),
        left_results.len() == left_ids.len(),
        right_results.len() == right_ids.len(),
        forall|i: int|
            0 <= i < left_ids.len() ==> left.channels.contains_key(#[trigger] left_ids[i]),
        forall|i: int|
            0 <= i < right_ids.len() ==> right.channels.contains_key(#[trigger] right_ids[i]),
        left.batches == right.batches,
        left.l2_blocks == right.l2_blocks,
        all_batches(left_results) == all_batches(right_results),
        all_blocks(left_results) == all_blocks(right_results),
    ensures
        ({
            let left_after = side_state::drained(left, left_ids, left_results).side;
            let right_after = side_state::drained(right, right_ids, right_results).side;
            &&& left_after.batches == right_after.batches
            &&& left_after.l2_blocks == right_after.l2_blocks
        }),
{
    lemma_drain(left, left_ids, left_results);
    lemma_drain(right, right_ids, right_results);
}

/// One channel that decodes to two lists, one after the other, leaves the same
/// queue of batches as two channels that decode to one list each.
pub proof fn law_one_channel_or_two(
    side: SideView,
    id: ChannelId,
    first: ChannelId,
    second: ChannelId,
    whole: NormalizedChannel,
    left: NormalizedChannel,
    right: NormalizedChannel,
)
    requires
        side.well_formed(),
        side.channels.contains_key(id),
        side.channels.contains_key(first),
        side.channels.contains_key(second),
        first != second,
        whole.batches@ == left.batches@ + right.batches@,
    ensures
        side_state::drained(side, seq![id], seq![Some(whole)]).side.batches == side.batches
            + left.batches@ + right.batches@,
        side_state::drained(
            side,
            seq![first, second],
            seq![Some(left), Some(right)],
        ).side.batches == side.batches + left.batches@ + right.batches@,
{
    let one = seq![Some(whole)];
    let two = seq![Some(left), Some(right)];
    assert(seq![first, second].no_duplicates());
    lemma_drain(side, seq![id], one);
    lemma_drain(side, seq![first, second], two);
    lemma_all_step(one);
    lemma_all_step(two);
    lemma_all_step(two.drop_last());
    assert(one.drop_last() =~= Seq::empty());
    assert(two.drop_last() =~= seq![Some(left)]);
    assert(two.drop_last().drop_last() =~= Seq::empty());
    assert(all_batches(Seq::empty()) =~= Seq::empty());
    assert(all_batches(one) =~= left.batches@ + right.batches@);
    assert(all_batches(two) =~= left.batches@ + right.batches@);
    assert(side.batches + all_batches(one) =~= side.batches + left.batches@ + right.batches@);
    assert(side.batches + all_batches(two) =~= side.batches + left.batches@ + right.batches@);
}

/// The reported counts of a drain are the numbers of channels that decoded, of
/// their batches, of their blocks, and of channels that did not decode.
pub proof fn law_drain_counts_what_it_decoded(
    side: SideView,
    ids: Seq<ChannelId>,
    results: Seq<Option<NormalizedChannel>>,
)
    requires
        side.well_formed(),
        ids.no_duplicates(),
        results.len() == ids.len(),
        forall|i: int| 0 <= i < ids.len() ==> side.channels.contains_key(#[trigger] ids[i]),
        results.len() <= usize::MAX,
        all_batches(results).len() <= usize::MAX,
        all_blocks(results).len() <= usize::MAX,
    ensures
        ({
            let counts = side_state::drained(side, ids, results).counts();
            &&& counts.complete_channels == decoded_count(results)
            &&& counts.complete_channels + counts.decode_errors == results.len()
            &&& counts.batches == all_batches(results).len()
            &&& counts.l2_blocks == all_blocks(results).len()
        }),
{
    lemma_drain(side, ids, results);
    results.lemma_filter_len(|result: Option<NormalizedChannel>| result is Some);
}

proof fn lemma_filter_order(
    list: Seq<ChannelId>,
    pred: spec_fn(ChannelId) -> bool,
    i: int,
    j: int,
)
    requires
        list.no_duplicates(),
        0 <= i < j < list.filter(pred).len(),
    ensures
        list.contains(list.filter(pred)[i]),
        list.contains(list.filter(pred)[j]),
        list.index_of(list.filter(pred)[i]) < list.index_of(list.filter(pred)[j]),
    decreases list.len(),
{
    reveal(Seq::filter);
    let front = list.drop_last();
    let rest = front.filter(pred);
    let kept = list.filter(pred);
    if list.len() > 0 {
        assert forall|id: ChannelId| front.contains(id) implies list.contains(id)
            && list.index_of(id) == front.index_of(id) by {
            let k = front.index_of(id);
            assert(list[k] == id);
            let m = list.index_of(id);
            assert(list[m] == id);
        }
        if j < rest.len() {
            assert(front.no_duplicates());
            lemma_filter_order(front, pred, i, j);
            assert(kept[i] == rest[i]);
            assert(kept[j] == rest[j]);
        } else {
            assert(kept[j] == list.last());
            assert(kept[i] == rest[i]);
            lemma_filter_source(front, pred, i);
            assert(list[list.len() - 1] == list.last());
            let m = list.index_of(list.last());
            assert(list[m] == list.last());
        }
    }
}

proof fn lemma_filter_source(list: Seq<ChannelId>, pred: spec_fn(ChannelId) -> bool, i: int)
    requires
        0 <= i < list.filter(pred).len(),
    ensures
        list.contains(list.filter(pred)[i]),
        pred(list.filter(pred)[i]),
    decreases list.len(),
{
    reveal(Seq::filter);
    if list.len() > 0 {
        let front = list.drop_last();
        if i < front.filter(pred).len() {
            lemma_filter_source(front, pred, i);
            let k = front.index_of(front.filter(pred)[i]);
            assert(list[k] == front.filter(pred)[i]);
        } else {
            assert(list[list.len() - 1] == list.last());
        }
    }
}

/// The channels that are drained are exactly the complete ones, each once, in
/// the order in which they were first seen.
pub proof fn law_complete_channels_are_drained_as_first_seen(side: SideView, id: ChannelId)
    requires
        side.well_formed(),
    ensures
        side.ready_ids().contains(id) <==> side.channels.contains_key(id)
            && side.channels[id].ready,
        side.ready_ids().no_duplicates(),
        forall|i: int, j: int|
            0 <= i < j < side.ready_ids().len() ==> side.channel_order.index_of(
                #[trigger] side.ready_ids()[i],
            ) < side.channel_order.index_of(#[trigger] side.ready_ids()[j]),
{
    let pred = side_state::is_ready(side.channels);
    let ids = side.ready_ids();
    parity_laws::lemma_filter_distinct(side.channel_order, pred);
    if ids.contains(id) {
        let k = ids.index_of(id);
        lemma_filter_source(side.channel_order, pred, k);
    }
    if side.channels.contains_key(id) && side.channels[id].ready {
        assert(side.channel_order.contains(id));
        let k = side.channel_order.index_of(id);
        side.channel_order.lemma_filter_contains(pred, k);
    }
    assert forall|i: int, j: int| 0 <= i < j < ids.len() implies side.channel_order.index_of(
        #[trigger] ids[i],
    ) < side.channel_order.index_of(#[trigger] ids[j]) by {
        lemma_filter_order(side.channel_order, pred, i, j);
    }
}

/// What ingesting a payload rested on: the frames that it was split into, what
/// became of each, and what each complete channel decoded to.
pub struct IngestTrace {
    pub frames: Vec<Frame>,
    pub outcomes: Seq<FrameOutcome>,
    pub results: Seq<Option<NormalizedChannel>>,
}

impl IngestTrace {
    /// The channels that are complete once the frames were handed over, in the
    /// order in which they were first seen.
    pub open spec fn complete(self, pre: SideView, block: BlockInfo) -> Seq<ChannelView> {
        let filled = pre.after_frames(self.frames@, block, self.outcomes);
        filled.ready_ids().map_values(|id: ChannelId| filled.channels[id])
    }
}

/// A payload is ingested by the derivation operations themselves. They split it
/// into frames; each frame is handed, in its order and with the inclusion block,
/// to its channel as it then was; each complete channel is decoded at the
/// timestamp of the inclusion block. What the channels decoded to joins the
/// queues in the order in which the channels were first seen.
pub proof fn law_ingest_rests_on_the_derivation<
    P: Fn(&[u8]) -> Result<Vec<Frame>, FrameParseError>,
    A: Fn(&Channel, &Frame, &BlockInfo) -> FrameOutcome,
    N: Fn(&Channel, u64) -> Option<NormalizedChannel>,
    T: Fn(u64) -> u64,
    D: Fn(&Vec<u8>) -> Result<Vec<u8>, BlobDecodeError>,
>(
    codec: DerivationCodec<P, A, N, T, D>,
    pre: SideView,
    payload: Seq<u8>,
    block: BlockInfo,
    post: SideView,
    ingested: IngestedPayload,
    events: Seq<MetricEvent>,
) -> (trace: IngestTrace)
    requires
        pre.well_formed(),
        codec.ingests(pre, payload, block, post, Ok(ingested), events),
    ensures
        exists|bytes: &[u8]|
            bytes@ == payload && #[trigger] call_ensures(
                codec.parse_frames,
                (bytes,),
                Ok(trace.frames),
            ),
        trace.outcomes.len() == trace.frames@.len(),
        forall|i: int|
            0 <= i < trace.frames@.len() ==> frame_was_added(
                codec,
                pre,
                block,
                #[trigger] trace.frames@[i],
                trace.frames@.take(i),
                trace.outcomes.take(i),
                trace.outcomes[i],
            ),
        trace.results.len() == trace.complete(pre, block).len(),
        forall|i: int|
            0 <= i < trace.results.len() ==> channel_was_decoded(
                codec,
                trace.complete(pre, block)[i],
                block,
                #[trigger] trace.results[i],
            ),
        post.batches == pre.batches + all_batches(trace.results),
        post.l2_blocks == l2_queue::pushed_all(pre.l2_blocks, all_blocks(trace.results)),
        events.len() == rejected_count(trace.outcomes) + trace.results.len() - decoded_count(
            trace.results,
        ),
        forall|i: int|
            0 <= i < events.len() ==> #[trigger] events[i] == MetricEvent::Increment(
                Counter::ExtractionErrors,
                1,
            ),
        decoded_count(trace.results) <= usize::MAX ==> ingested.complete_channels
            == decoded_count(trace.results),
        all_batches(trace.results).len() <= usize::MAX ==> ingested.batches == all_batches(
            trace.results,
        ).len(),
        all_blocks(trace.results).len() <= usize::MAX ==> ingested.l2_blocks == all_blocks(
            trace.results,
        ).len(),
{
    assert(codec.ingests_frames(pre, payload, block, post, ingested, events));
    let (frames, outcomes, results) = choose|
        frames: Vec<Frame>,
        outcomes: Seq<FrameOutcome>,
        results: Seq<Option<NormalizedChannel>>,
    | #[trigger]
        codec.ingests_via(
            pre,
            payload,
            block,
            frames,
            outcomes,
            results,
            post,
            ingested,
            events,
        );
    let filled = pre.after_frames(frames@, block, outcomes);
    let ids = filled.ready_ids();
    parity_laws::law_frames_keep_side(pre, frames@, block, outcomes);
    parity_laws::lemma_filter_distinct(
        filled.channel_order,
        side_state::is_ready(filled.channels),
    );
    assert forall|i: int| 0 <= i < ids.len() implies filled.channels.contains_key(
        #[trigger] ids[i],
    ) by {
        lemma_filter_source(filled.channel_order, side_state::is_ready(filled.channels), i);
    }
    assert forall|i: int| 0 <= i < ids.len() implies channel_was_decoded(
        codec,
        filled.channels[#[trigger] ids[i]],
        block,
        results[i],
    ) by {
        if ids.take(i).contains(ids[i]) {
            let k = ids.take(i).index_of(ids[i]);
            assert(ids[k] == ids[i]);
        }
        assert(!ids.take(i).contains(ids[i]));
        assert(codec.normalizes(filled.channels[ids[i]], block.timestamp, results[i]));
    }
    assert forall|i: int| 0 <= i < frames@.len() implies frame_was_added(
        codec,
        pre,
        block,
        #[trigger] frames@[i],
        frames@.take(i),
        outcomes.take(i),
        outcomes[i],
    ) by {
        assert(codec.adds(
            pre.after_frames(frames@.take(i), block, outcomes.take(i)).channel_for(
                frames@[i].id,
                block,
            ),
            frames@[i],
            block,
            outcomes[i],
        ));
    }
    law_frames_keep_opening_blocks(pre, frames@, block, outcomes, 0);
    lemma_drain(filled, ids, results);
    lemma_frames_events(outcomes);
    let errors = side_state::extraction_errors((results.len() - decoded_count(results)) as nat);
    results.lemma_filter_len(|result: Option<NormalizedChannel>| result is Some);
    assert(events == side_state::frames_events(outcomes) + errors);
    assert forall|i: int| 0 <= i < events.len() implies #[trigger] events[i]
        == MetricEvent::Increment(Counter::ExtractionErrors, 1) by {
        let earlier = side_state::frames_events(outcomes);
        if i < earlier.len() {
            assert(events[i] == earlier[i]);
        } else {
            assert(events[i] == errors[i - earlier.len()]);
        }
    }
    let trace = IngestTrace { frames, outcomes, results };
    assert forall|i: int| 0 <= i < results.len() implies channel_was_decoded(
        codec,
        trace.complete(pre, block)[i],
        block,
        #[trigger] results[i],
    ) by {
        assert(channel_was_decoded(codec, filled.channels[ids[i]], block, results[i]));
    }
    trace
}

/// The derivation was asked what becomes of the frame, in the inclusion block,
/// in its channel as earlier frames had left it, or in a new channel opened in
/// that block, and may have given the outcome.
pub open spec fn frame_was_added<
    P: Fn(&[u8]) -> Result<Vec<Frame>, FrameParseError>,
    A: Fn(&Channel, &Frame, &BlockInfo) -> FrameOutcome,
    N: Fn(&Channel, u64) -> Option<NormalizedChannel>,
    T: Fn(u64) -> u64,
    D: Fn(&Vec<u8>) -> Result<Vec<u8>, BlobDecodeError>,
>(
    codec: DerivationCodec<P, A, N, T, D>,
    pre: SideView,
    block: BlockInfo,
    frame: Frame,
    earlier: Seq<Frame>,
    earlier_outcomes: Seq<FrameOutcome>,
    outcome: FrameOutcome,
) -> bool {
    let side = pre.after_frames(earlier, block, earlier_outcomes);
    exists|channel: Channel|
        {
            &&& #[trigger] call_ensures(codec.add_frame, (&channel, &frame, &block), outcome)
            &&& side.channels.contains_key(frame.id) ==> channel@ == side.channels[frame.id]
            &&& !side.channels.contains_key(frame.id) ==> channel.id == frame.id
                && channel.open_block == block && channel.frames@.len() == 0 && !channel.ready
        }
}

/// The derivation was asked to decode the channel at the timestamp of the
/// inclusion block, and may have given the result.
pub open spec fn channel_was_decoded<
    P: Fn(&[u8]) -> Result<Vec<Frame>, FrameParseError>,
    A: Fn(&Channel, &Frame, &BlockInfo) -> FrameOutcome,
    N: Fn(&Channel, u64) -> Option<NormalizedChannel>,
    T: Fn(u64) -> u64,
    D: Fn(&Vec<u8>) -> Result<Vec<u8>, BlobDecodeError>,
>(
    codec: DerivationCodec<P, A, N, T, D>,
    view: ChannelView,
    block: BlockInfo,
    result: Option<NormalizedChannel>,
) -> bool {
    exists|channel: Channel|
        {
            &&& #[trigger] call_ensures(
                codec.normalize_channel,
                (&channel, block.timestamp),
                result,
            )
            &&& channel.id == view.id
            &&& channel.open_block == view.open_block
            &&& channel.frames@ == view.frames
            &&& channel.ready == view.ready
        }
}

/// The number of frames that their channels did not accept.
pub open spec fn rejected_count(outcomes: Seq<FrameOutcome>) -> nat {
    outcomes.filter(|outcome: FrameOutcome| !outcome.accepted).len()
}

proof fn lemma_frames_events(outcomes: Seq<FrameOutcome>)
    ensures
        side_state::frames_events(outcomes).len() == rejected_count(outcomes),
        forall|i: int|
            0 <= i < side_state::frames_events(outcomes).len() ==> #[trigger]
            side_state::frames_events(outcomes)[i] == MetricEvent::Increment(
                Counter::ExtractionErrors,
                1,
            ),
    decreases outcomes.len(),
{
    reveal(Seq::filter);
    if outcomes.len() > 0 {
        lemma_frames_events(outcomes.drop_last());
    }
}

/// A payload that the derivation cannot split into frames is refused with the
/// error that it gave, and changes and counts nothing.
pub proof fn law_unparsable_payload_changes_nothing<
    P: Fn(&[u8]) -> Result<Vec<Frame>, FrameParseError>,
    A: Fn(&Channel, &Frame, &BlockInfo) -> FrameOutcome,
    N: Fn(&Channel, u64) -> Option<NormalizedChannel>,
    T: Fn(u64) -> u64,
    D: Fn(&Vec<u8>) -> Result<Vec<u8>, BlobDecodeError>,
>(
    codec: DerivationCodec<P, A, N, T, D>,
    pre: SideView,
    payload: Seq<u8>,
    block: BlockInfo,
    post: SideView,
    error: ParityError,
    events: Seq<MetricEvent>,
)
    requires
        codec.ingests(pre, payload, block, post, Err(error), events),
    ensures
        post == pre,
        events.len() == 0,
        error matches ParityError::FrameParse(reason) && exists|bytes: &[u8]|
            bytes@ == payload && #[trigger] call_ensures(
                codec.parse_frames,
                (bytes,),
                Err::<Vec<Frame>, FrameParseError>(reason),
            ),
{
}

/// A payload changes only channels: those that stay keep the block in which they
/// were first seen as their opening block, new ones have the inclusion block,
/// and no complete channel stays. What waited keeps waiting, in front.
pub proof fn law_payload_keeps_opening_blocks<
    P: Fn(&[u8]) -> Result<Vec<Frame>, FrameParseError>,
    A: Fn(&Channel, &Frame, &BlockInfo) -> FrameOutcome,
    N: Fn(&Channel, u64) -> Option<NormalizedChannel>,
    T: Fn(u64) -> u64,
    D: Fn(&Vec<u8>) -> Result<Vec<u8>, BlobDecodeError>,
>(
    codec: DerivationCodec<P, A, N, T, D>,
    pre: SideView,
    payload: Seq<u8>,
    block: BlockInfo,
    post: SideView,
    result: Result<IngestedPayload, ParityError>,
    events: Seq<MetricEvent>,
    id: ChannelId,
)
    requires
        pre.well_formed(),
        codec.ingests(pre, payload, block, post, result, events),
    ensures
        post.channels.contains_key(id) && pre.channels.contains_key(id)
            ==> post.channels[id].open_block == pre.channels[id].open_block,
        post.channels.contains_key(id) && !pre.channels.contains_key(id)
            ==> post.channels[id].open_block == block,
        pre.batches.len() <= post.batches.len(),
        post.batches.take(pre.batches.len() as int) == pre.batches,
{
    match result {
        Err(error) => {
            assert(pre.batches.take(pre.batches.len() as int) =~= pre.batches);
        },
        Ok(ingested) => {
            assert(codec.ingests_frames(pre, payload, block, post, ingested, events));
            let (frames, outcomes, results) = choose|
                frames: Vec<Frame>,
                outcomes: Seq<FrameOutcome>,
                results: Seq<Option<NormalizedChannel>>,
            | #[trigger]
                codec.ingests_via(
                    pre,
                    payload,
                    block,
                    frames,
                    outcomes,
                    results,
                    post,
                    ingested,
                    events,
                );
            let filled = pre.after_frames(frames@, block, outcomes);
            let ids = filled.ready_ids();
            parity_laws::law_frames_keep_side(pre, frames@, block, outcomes);
            parity_laws::lemma_filter_distinct(
                filled.channel_order,
                side_state::is_ready(filled.channels),
            );
            assert forall|i: int| 0 <= i < ids.len() implies filled.channels.contains_key(
                #[trigger] ids[i],
            ) by {
                lemma_filter_source(
                    filled.channel_order,
                    side_state::is_ready(filled.channels),
                    i,
                );
            }
            law_frames_keep_opening_blocks(pre, frames@, block, outcomes, id);
            parity_laws::law_drain_keeps_side(filled, ids, results);
            lemma_drain(filled, ids, results);
            assert(post.batches.take(pre.batches.len() as int) =~= pre.batches);
        },
    }
}

/// Eviction judges each side by a channel timeout that the derivation gave for
/// the timestamp. On each side exactly the channels that opened more than that
/// many blocks before the L1 block leave, every other channel and both queues
/// stay as they are, and the reported number is that of the channels that left.
pub proof fn law_eviction_follows_the_timeout<
    P: Fn(&[u8]) -> Result<Vec<Frame>, FrameParseError>,
    A: Fn(&Channel, &Frame, &BlockInfo) -> FrameOutcome,
    N: Fn(&Channel, u64) -> Option<NormalizedChannel>,
    T: Fn(u64) -> u64,
    D: Fn(&Vec<u8>) -> Result<Vec<u8>, BlobDecodeError>,
>(
    codec: DerivationCodec<P, A, N, T, D>,
    pre: StateView,
    l1_block: u64,
    l1_timestamp: u64,
    post: StateView,
    evicted: usize,
) -> (timeouts: (u64, u64))
    requires
        pre.well_formed(),
        codec.evicts(pre, l1_block, l1_timestamp, post, evicted),
        pre.canonical.channel_order.len() + pre.shadow.channel_order.len() <= usize::MAX,
    ensures
        call_ensures(codec.channel_timeout, (l1_timestamp,), timeouts.0),
        call_ensures(codec.channel_timeout, (l1_timestamp,), timeouts.1),
        side_lost_expired(pre.canonical, post.canonical, l1_block, timeouts.0),
        side_lost_expired(pre.shadow, post.shadow, l1_block, timeouts.1),
        evicted == pre.canonical.channel_order.len() - post.canonical.channel_order.len()
            + pre.shadow.channel_order.len() - post.shadow.channel_order.len(),
        post.last_result == pre.last_result,
        post.last_l2_result == pre.last_l2_result,
        post.last_reported_pending_drift == pre.last_reported_pending_drift,
{
    let (canonical, shadow) = choose|canonical: u64, shadow: u64|
        {
            &&& #[trigger] codec.times_out(l1_timestamp, canonical)
            &&& #[trigger] codec.times_out(l1_timestamp, shadow)
            &&& evicted == pre.expired_count(l1_block, canonical, shadow)
            &&& post == pre.without_expired(l1_block, canonical, shadow)
        };
    parity_laws::law_evict_removes_exactly_expired(pre.canonical, l1_block, canonical);
    parity_laws::law_evict_removes_exactly_expired(pre.shadow, l1_block, shadow);
    (canonical, shadow)
}

/// The side lost exactly the channels that opened more than the timeout before
/// the L1 block, and is otherwise as it was.
pub open spec fn side_lost_expired(
    pre: SideView,
    post: SideView,
    l1_block: u64,
    timeout: u64,
) -> bool {
    &&& post.well_formed()
    &&& forall|id: ChannelId| #[trigger]
        post.channels.contains_key(id) <==> pre.channels.contains_key(id)
            && l1_block <= pre.channels[id].open_block.number + timeout
    &&& forall|id: ChannelId| #[trigger]
        post.channels.contains_key(id) ==> post.channels[id] == pre.channels[id]
    &&& post.batches == pre.batches
    &&& post.l2_blocks == pre.l2_blocks
}

proof fn lemma_filter_twice(
    list: Seq<ChannelId>,
    first: spec_fn(ChannelId) -> bool,
    second: spec_fn(ChannelId) -> bool,
    both: spec_fn(ChannelId) -> bool,
)
    requires
        forall|id: ChannelId| #[trigger] both(id) <==> first(id) && second(id),
    ensures
        list.filter(first).filter(second) == list.filter(both),
    decreases list.len(),
{
    reveal(Seq::filter);
    if list.len() > 0 {
        let front = list.drop_last();
        lemma_filter_twice(front, first, second, both);
        assert(both(list.last()) <==> first(list.last()) && second(list.last()));
        if first(list.last()) {
            assert(front.filter(first).push(list.last()).drop_last() =~= front.filter(first));
        }
    }
}

proof fn lemma_filter_all(list: Seq<ChannelId>, pred: spec_fn(ChannelId) -> bool)
    requires
        forall|id: ChannelId| #[trigger] pred(id),
    ensures
        list.filter(pred) == list,
    decreases list.len(),
{
    reveal(Seq::filter);
    if list.len() > 0 {
        lemma_filter_all(list.drop_last(), pred);
        assert(pred(list.last()));
        assert(list.drop_last().push(list.last()) =~= list);
    }
    assert(list.filter(pred) =~= list);
}

proof fn lemma_filter_alike(
    list: Seq<ChannelId>,
    left: spec_fn(ChannelId) -> bool,
    right: spec_fn(ChannelId) -> bool,
)
    requires
        forall|i: int| 0 <= i < list.len() ==> left(#[trigger] list[i]) == right(list[i]),
    ensures
        list.filter(left) == list.filter(right),
    decreases list.len(),
{
    reveal(Seq::filter);
    if list.len() > 0 {
        let front = list.drop_last();
        assert forall|i: int| 0 <= i < front.len() implies left(#[trigger] front[i]) == right(
            front[i],
        ) by {
            assert(front[i] == list[i]);
        }
        lemma_filter_alike(front, left, right);
        assert(left(list[list.len() - 1]) == right(list[list.len() - 1]));
    }
}

/// Draining takes the drained channels out of the first-seen order and leaves
/// the others in theirs.
pub proof fn law_drain_keeps_the_order_of_others(
    side: SideView,
    ids: Seq<ChannelId>,
    results: Seq<Option<NormalizedChannel>>,
)
    requires
        results.len() == ids.len(),
    ensures
        side_state::drained(side, ids, results).side.channel_order == side.channel_order.filter(
            |id: ChannelId| !ids.contains(id),
        ),
    decreases ids.len(),
{
    let rest = |id: ChannelId| !ids.contains(id);
    if ids.len() == 0 {
        assert forall|id: ChannelId| #[trigger] rest(id) by {}
        lemma_filter_all(side.channel_order, rest);
    } else {
        let front = ids.drop_last();
        let earlier = |id: ChannelId| !front.contains(id);
        law_drain_keeps_the_order_of_others(side, front, results.drop_last());
        assert forall|id: ChannelId| #[trigger] rest(id) <==> earlier(id)
            && side_state::other_than(ids.last())(id) by {
            if ids.contains(id) {
                let k = ids.index_of(id);
                if k < front.len() {
                    assert(front[k] == id);
                }
            }
            if front.contains(id) {
                let k = front.index_of(id);
                assert(ids[k] == id);
            }
            assert(ids[ids.len() - 1] == ids.last());
        }
        lemma_filter_twice(
            side.channel_order,
            earlier,
            side_state::other_than(ids.last()),
            rest,
        );
    }
}

/// Eviction takes the channels that it evicts out of the first-seen order and
/// leaves the others in theirs.
pub proof fn law_eviction_keeps_the_order_of_others(
    side: SideView,
    l1_block: u64,
    timeout: u64,
)
    requires
        side.well_formed(),
    ensures
        side.without_expired(l1_block, timeout).channel_order == side.channel_order.filter(
            |id: ChannelId| l1_block <= side.channels[id].open_block.number + timeout,
        ),
{
    let kept = |id: ChannelId| l1_block <= side.channels[id].open_block.number + timeout;
    let pred = side_state::negated(side_state::is_expired(side.channels, l1_block, timeout));
    assert forall|i: int| 0 <= i < side.channel_order.len() implies pred(
        #[trigger] side.channel_order[i],
    ) == kept(side.channel_order[i]) by {
        assert(side.channel_order.contains(side.channel_order[i]));
    }
    lemma_filter_alike(side.channel_order, pred, kept);
}

/// A channel that is not there queues and counts nothing, whatever it is said to
/// have decoded to.
pub proof fn law_absent_channel_adds_nothing(
    drain: DrainView,
    id: ChannelId,
    result: Option<NormalizedChannel>,
)
    requires
        !drain.side.channels.contains_key(id),
    ensures
        ({
            let after = drain.after_channel(id, result);
            &&& after.side.batches == drain.side.batches
            &&& after.side.l2_blocks == drain.side.l2_blocks
            &&& after.complete_channels == drain.complete_channels
            &&& after.batches == drain.batches
            &&& after.l2_blocks == drain.l2_blocks
            &&& after.decode_errors == drain.decode_errors
            &&& forall|other: ChannelId| #[trigger]
                after.side.channels.contains_key(other) <==> drain.side.channels.contains_key(other)
        }),
{
}

} // verus!
