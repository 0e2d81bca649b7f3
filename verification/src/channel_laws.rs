//! Channel identifiers are volatile: what a side queues for comparison does not
//! depend on them.

use crate::channel::{
    BlockInfo, ChannelId, ChannelView, Frame, FrameOutcome, NormalizedChannel,
};
use crate::side_state;
use crate::side_state::{DrainView, SideView};
use vstd::prelude::*;

verus! {

/// Different channels have different new identifiers.
pub open spec fn keeps_apart(rename: spec_fn(ChannelId) -> ChannelId) -> bool {
    forall|left: ChannelId, right: ChannelId| #[trigger]
        rename(left) == #[trigger] rename(right) ==> left == right
}

/// The channels were opened in the same block and are equally complete.
pub open spec fn same_progress(left: ChannelView, right: ChannelView) -> bool {
    left.open_block == right.open_block && left.ready == right.ready
}

/// The sides differ at most in the identifiers of their channels and in the
/// frames recorded for them.
pub open spec fn same_but_ids(
    left: SideView,
    right: SideView,
    rename: spec_fn(ChannelId) -> ChannelId,
) -> bool {
    &&& right.channel_order == left.channel_order.map_values(rename)
    &&& forall|id: ChannelId| #[trigger]
        left.channels.contains_key(id) <==> right.channels.contains_key(rename(id))
    &&& forall|id: ChannelId| #[trigger]
        left.channels.contains_key(id) ==> same_progress(
            left.channels[id],
            right.channels[rename(id)],
        )
    &&& right.batches == left.batches
    &&& right.l2_blocks == left.l2_blocks
}

/// The frames belong to the same channels in order, up to identifiers.
pub open spec fn same_frames_but_ids(
    left: Seq<Frame>,
    right: Seq<Frame>,
    rename: spec_fn(ChannelId) -> ChannelId,
) -> bool {
    &&& left.len() == right.len()
    &&& forall|i: int| 0 <= i < left.len() ==> (#[trigger] right[i]).id == rename(left[i].id)
}

/// Filtering and renaming can be exchanged.
proof fn lemma_filter_renamed(
    list: Seq<ChannelId>,
    rename: spec_fn(ChannelId) -> ChannelId,
    before: spec_fn(ChannelId) -> bool,
    after: spec_fn(ChannelId) -> bool,
)
    requires
        forall|i: int| 0 <= i < list.len() ==> before(#[trigger] list[i]) == after(rename(list[i])),
    ensures
        list.map_values(rename).filter(after) == list.filter(before).map_values(rename),
    decreases list.len(),
{
    reveal(Seq::filter);
    if list.len() > 0 {
        let front = list.drop_last();
        lemma_filter_renamed(front, rename, before, after);
        assert(list.map_values(rename).drop_last() =~= front.map_values(rename));
        assert(before(list[list.len() - 1]) == after(rename(list[list.len() - 1])));
        assert(list.map_values(rename).filter(after) =~= list.filter(before).map_values(rename));
    } else {
        assert(list.map_values(rename).filter(after) =~= list.filter(before).map_values(rename));
    }
}

proof fn lemma_frame_renamed(
    left: SideView,
    right: SideView,
    rename: spec_fn(ChannelId) -> ChannelId,
    left_frame: Frame,
    right_frame: Frame,
    block: BlockInfo,
    outcome: FrameOutcome,
)
    requires
        keeps_apart(rename),
        same_but_ids(left, right, rename),
        right_frame.id == rename(left_frame.id),
    ensures
        same_but_ids(
            left.after_frame(left_frame, block, outcome),
            right.after_frame(right_frame, block, outcome),
            rename,
        ),
{
    let after_left = left.after_frame(left_frame, block, outcome);
    let after_right = right.after_frame(right_frame, block, outcome);
    assert(left.channels.contains_key(left_frame.id) <==> right.channels.contains_key(
        rename(left_frame.id),
    ));
    assert(after_right.channel_order =~= after_left.channel_order.map_values(rename));
    assert forall|id: ChannelId| #[trigger]
        after_left.channels.contains_key(id) <==> after_right.channels.contains_key(
            rename(id),
        ) by {
        assert(left.channels.contains_key(id) <==> right.channels.contains_key(rename(id)));
    }
    assert forall|id: ChannelId| #[trigger] after_left.channels.contains_key(id) implies same_progress(
        after_left.channels[id],
        after_right.channels[rename(id)],
    ) by {
        if id != left_frame.id {
            assert(left.channels.contains_key(id));
            assert(rename(id) != rename(left_frame.id));
        }
    }
}

proof fn lemma_frames_renamed(
    left: SideView,
    right: SideView,
    rename: spec_fn(ChannelId) -> ChannelId,
    left_frames: Seq<Frame>,
    right_frames: Seq<Frame>,
    block: BlockInfo,
    outcomes: Seq<FrameOutcome>,
)
    requires
        keeps_apart(rename),
        same_but_ids(left, right, rename),
        same_frames_but_ids(left_frames, right_frames, rename),
    ensures
        same_but_ids(
            left.after_frames(left_frames, block, outcomes),
            right.after_frames(right_frames, block, outcomes),
            rename,
        ),
    decreases left_frames.len(),
{
    if left_frames.len() > 0 {
        let left_front = left_frames.drop_last();
        let right_front = right_frames.drop_last();
        assert forall|i: int| 0 <= i < left_front.len() implies (#[trigger] right_front[i]).id
            == rename(left_front[i].id) by {
            assert(right_front[i] == right_frames[i]);
        }
        lemma_frames_renamed(
            left,
            right,
            rename,
            left_front,
            right_front,
            block,
            outcomes.drop_last(),
        );
        assert(right_frames[right_frames.len() - 1].id == rename(
            left_frames[left_frames.len() - 1].id,
        ));
        lemma_frame_renamed(
            left.after_frames(left_front, block, outcomes.drop_last()),
            right.after_frames(right_front, block, outcomes.drop_last()),
            rename,
            left_frames.last(),
            right_frames.last(),
            block,
            outcomes.last(),
        );
    }
}

proof fn lemma_ready_renamed(
    left: SideView,
    right: SideView,
    rename: spec_fn(ChannelId) -> ChannelId,
)
    requires
        same_but_ids(left, right, rename),
    ensures
        right.ready_ids() == left.ready_ids().map_values(rename),
{
    let before = side_state::is_ready(left.channels);
    let after = side_state::is_ready(right.channels);
    assert forall|i: int| 0 <= i < left.channel_order.len() implies before(
        #[trigger] left.channel_order[i],
    ) == after(rename(left.channel_order[i])) by {
        let id = left.channel_order[i];
        assert(left.channels.contains_key(id) <==> right.channels.contains_key(rename(id)));
        if left.channels.contains_key(id) {
            assert(same_progress(left.channels[id], right.channels[rename(id)]));
        }
    }
    lemma_filter_renamed(left.channel_order, rename, before, after);
}

/// The drains have the same counts, and their sides differ at most in
/// identifiers.
spec fn same_drains(
    left: DrainView,
    right: DrainView,
    rename: spec_fn(ChannelId) -> ChannelId,
) -> bool {
    &&& same_but_ids(left.side, right.side, rename)
    &&& left.complete_channels == right.complete_channels
    &&& left.batches == right.batches
    &&& left.l2_blocks == right.l2_blocks
    &&& left.decode_errors == right.decode_errors
}

proof fn lemma_channel_renamed(
    left: DrainView,
    right: DrainView,
    rename: spec_fn(ChannelId) -> ChannelId,
    id: ChannelId,
    result: Option<NormalizedChannel>,
)
    requires
        keeps_apart(rename),
        same_drains(left, right, rename),
    ensures
        same_drains(
            left.after_channel(id, result),
            right.after_channel(rename(id), result),
            rename,
        ),
{
    let after_left = left.after_channel(id, result).side;
    let after_right = right.after_channel(rename(id), result).side;
    let order = left.side.channel_order;
    let before = side_state::other_than(id);
    let after = side_state::other_than(rename(id));
    assert forall|i: int| 0 <= i < order.len() implies before(#[trigger] order[i]) == after(
        rename(order[i]),
    ) by {
        assert(rename(order[i]) == rename(id) ==> order[i] == id);
    }
    lemma_filter_renamed(order, rename, before, after);
    assert(left.side.channels.contains_key(id) <==> right.side.channels.contains_key(rename(id)));
    assert forall|other: ChannelId| #[trigger]
        after_left.channels.contains_key(other) <==> after_right.channels.contains_key(
            rename(other),
        ) by {
        assert(left.side.channels.contains_key(other) <==> right.side.channels.contains_key(
            rename(other),
        ));
        assert(rename(other) == rename(id) ==> other == id);
    }
    assert forall|other: ChannelId| #[trigger]
        after_left.channels.contains_key(other) implies same_progress(
        after_left.channels[other],
        after_right.channels[rename(other)],
    ) by {
        assert(left.side.channels.contains_key(other));
        assert(rename(other) == rename(id) ==> other == id);
    }
}

proof fn lemma_drain_renamed(
    left: SideView,
    right: SideView,
    rename: spec_fn(ChannelId) -> ChannelId,
    ids: Seq<ChannelId>,
    results: Seq<Option<NormalizedChannel>>,
)
    requires
        keeps_apart(rename),
        same_but_ids(left, right, rename),
    ensures
        same_drains(
            side_state::drained(left, ids, results),
            side_state::drained(right, ids.map_values(rename), results),
            rename,
        ),
    decreases ids.len(),
{
    if ids.len() > 0 {
        lemma_drain_renamed(left, right, rename, ids.drop_last(), results.drop_last());
        assert(ids.map_values(rename).drop_last() =~= ids.drop_last().map_values(rename));
        lemma_channel_renamed(
            side_state::drained(left, ids.drop_last(), results.drop_last()),
            side_state::drained(right, ids.map_values(rename).drop_last(), results.drop_last()),
            rename,
            ids.last(),
            results.last(),
        );
    }
}

/// Channel identifiers are irrelevant. Two sides that differ at most in them
/// are handed frames that differ at most in them. Where the frames are accepted
/// alike and the channels decode alike, both sides queue the same batches and
/// the same blocks, report the same counts, and differ at most in identifiers
/// again.
pub proof fn law_channel_ids_are_irrelevant(
    left: SideView,
    right: SideView,
    rename: spec_fn(ChannelId) -> ChannelId,
    left_frames: Seq<Frame>,
    right_frames: Seq<Frame>,
    block: BlockInfo,
    outcomes: Seq<FrameOutcome>,
    results: Seq<Option<NormalizedChannel>>,
)
    requires
        keeps_apart(rename),
        same_but_ids(left, right, rename),
        same_frames_but_ids(left_frames, right_frames, rename),
    ensures
        ({
            let left_filled = left.after_frames(left_frames, block, outcomes);
            let right_filled = right.after_frames(right_frames, block, outcomes);
            let left_drain = side_state::drained(left_filled, left_filled.ready_ids(), results);
            let right_drain = side_state::drained(right_filled, right_filled.ready_ids(), results);
            &&& left_drain.side.batches == right_drain.side.batches
            &&& left_drain.side.l2_blocks == right_drain.side.l2_blocks
            &&& left_drain.counts() == right_drain.counts()
            &&& same_but_ids(left_drain.side, right_drain.side, rename)
        }),
{
    let left_filled = left.after_frames(left_frames, block, outcomes);
    let right_filled = right.after_frames(right_frames, block, outcomes);
    lemma_frames_renamed(left, right, rename, left_frames, right_frames, block, outcomes);
    lemma_ready_renamed(left_filled, right_filled, rename);
    lemma_drain_renamed(left_filled, right_filled, rename, left_filled.ready_ids(), results);
}

} // verus!
