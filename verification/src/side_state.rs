//! Channel assembly and waiting queues of one side of the comparison.

use crate::channel::{
    BlobDecodeError, BlockInfo, Channel, ChannelId, ChannelView, DerivationCodec, Frame,
    FrameOutcome, FrameParseError, NormalizedChannel,
};
use crate::error::ParityError;
use crate::l2_queue;
use crate::l2_queue::L2Queues;
use crate::metrics::{BatcherServiceMetrics, Counter, MetricEvent};
use crate::normalized::{NormalizedBatch, NormalizedL2Block};
use std::collections::{BTreeMap, HashMap, VecDeque};
use vstd::prelude::*;

verus! {

broadcast use {
    vstd::std_specs::btree::group_btree_axioms,
    vstd::std_specs::hash::group_hash_axioms,
    vstd::std_specs::vecdeque::group_vec_dequeue_axioms,
};

/// Channel assembler and decoded-batch queue for one side.
#[derive(Debug)]
pub struct ParitySideState {
    /// Channels currently waiting for missing frames.
    pub channels: HashMap<ChannelId, Channel>,
    /// Channel first-seen order.
    pub channel_order: VecDeque<ChannelId>,
    /// Decoded batches waiting for the opposite side.
    pub batches: VecDeque<NormalizedBatch>,
    /// Decoded L2 blocks waiting for the opposite side, keyed by L2 timestamp.
    pub l2_blocks: BTreeMap<u64, VecDeque<NormalizedL2Block>>,
}

/// What a side holds, with its collections as maps and sequences.
#[verifier::ext_equal]
pub struct SideView {
    pub channels: Map<ChannelId, ChannelView>,
    pub channel_order: Seq<ChannelId>,
    pub batches: Seq<NormalizedBatch>,
    pub l2_blocks: L2Queues,
}

/// Result from ingesting one payload into a side state.
#[derive(Clone, Copy, Debug, PartialEq, Eq, Structural)]
pub struct IngestedPayload {
    /// Number of complete channels decoded.
    pub complete_channels: usize,
    /// Number of decoded batches added to the comparison queue.
    pub batches: usize,
    /// Number of decoded L2 blocks added to the comparison queue.
    pub l2_blocks: usize,
    /// Number of complete channels that failed strict batch decoding.
    pub decode_errors: usize,
}

/// A side and the counts of a drain in progress.
#[verifier::ext_equal]
pub struct DrainView {
    pub side: SideView,
    pub complete_channels: nat,
    pub batches: nat,
    pub l2_blocks: nat,
    pub decode_errors: nat,
}

/// The channel is present and all its frames are.
pub open spec fn is_ready(channels: Map<ChannelId, ChannelView>) -> spec_fn(ChannelId) -> bool {
    |id: ChannelId| channels.contains_key(id) && channels[id].ready
}

/// The channel is present and its timeout passed before an L1 block.
pub open spec fn is_expired(
    channels: Map<ChannelId, ChannelView>,
    l1_block: u64,
    timeout: u64,
) -> spec_fn(ChannelId) -> bool {
    |id: ChannelId|
        channels.contains_key(id) && channels[id].open_block.number + timeout < l1_block
}

/// The channel is not the given one.
pub open spec fn other_than(id: ChannelId) -> spec_fn(ChannelId) -> bool {
    |queued: ChannelId| queued != id
}

/// The predicate does not hold.
pub open spec fn negated(pred: spec_fn(ChannelId) -> bool) -> spec_fn(ChannelId) -> bool {
    |id: ChannelId| !pred(id)
}

impl SideView {
    /// A side that has seen nothing.
    pub open spec fn empty() -> SideView {
        SideView {
            channels: Map::empty(),
            channel_order: Seq::empty(),
            batches: Seq::empty(),
            l2_blocks: Map::empty(),
        }
    }

    /// The first-seen order names each present channel once, channels are kept
    /// under their own identifiers, and the block queues are well formed.
    pub open spec fn well_formed(self) -> bool {
        &&& self.channel_order.no_duplicates()
        &&& forall|id: ChannelId| #[trigger]
            self.channels.contains_key(id) <==> self.channel_order.contains(id)
        &&& forall|id: ChannelId| #[trigger]
            self.channels.contains_key(id) ==> self.channels[id].id == id
        &&& l2_queue::queues_well_formed(self.l2_blocks)
    }

    /// The channel that a frame joins: the present one, or one opened in the
    /// frame's inclusion block.
    pub open spec fn channel_for(self, id: ChannelId, block: BlockInfo) -> ChannelView {
        if self.channels.contains_key(id) {
            self.channels[id]
        } else {
            ChannelView::opened(id, block)
        }
    }

    /// The side after a frame was handed to its channel.
    pub open spec fn after_frame(
        self,
        frame: Frame,
        block: BlockInfo,
        outcome: FrameOutcome,
    ) -> SideView {
        SideView {
            channels: self.channels.insert(
                frame.id,
                self.channel_for(frame.id, block).after_frame(frame, block, outcome),
            ),
            channel_order: if self.channels.contains_key(frame.id) {
                self.channel_order
            } else {
                self.channel_order.push(frame.id)
            },
            ..self
        }
    }

    /// The side after frames were handed to their channels in order.
    pub open spec fn after_frames(
        self,
        frames: Seq<Frame>,
        block: BlockInfo,
        outcomes: Seq<FrameOutcome>,
    ) -> SideView
        decreases frames.len(),
    {
        if frames.len() == 0 {
            self
        } else {
            self.after_frames(frames.drop_last(), block, outcomes.drop_last()).after_frame(
                frames.last(),
                block,
                outcomes.last(),
            )
        }
    }

    /// The complete channels, in first-seen order.
    pub open spec fn ready_ids(self) -> Seq<ChannelId> {
        self.channel_order.filter(is_ready(self.channels))
    }

    /// The channels whose timeout passed before an L1 block, in first-seen order.
    pub open spec fn expired_ids(self, l1_block: u64, timeout: u64) -> Seq<ChannelId> {
        self.channel_order.filter(is_expired(self.channels, l1_block, timeout))
    }

    /// The side without the channels whose timeout passed before an L1 block.
    pub open spec fn without_expired(self, l1_block: u64, timeout: u64) -> SideView {
        let expired = self.expired_ids(l1_block, timeout);
        SideView {
            channels: self.channels.remove_keys(expired.to_set()),
            channel_order: self.channel_order.filter(
                negated(is_expired(self.channels, l1_block, timeout)),
            ),
            ..self
        }
    }
}

impl DrainView {
    /// A drain that has not handled any channel.
    pub open spec fn started(side: SideView) -> DrainView {
        DrainView { side, complete_channels: 0, batches: 0, l2_blocks: 0, decode_errors: 0 }
    }

    /// The drain after it handled one more channel, whose decoding gave `result`.
    pub open spec fn after_channel(
        self,
        id: ChannelId,
        result: Option<NormalizedChannel>,
    ) -> DrainView {
        let side = SideView {
            channels: self.side.channels.remove(id),
            channel_order: self.side.channel_order.filter(other_than(id)),
            ..self.side
        };
        if !self.side.channels.contains_key(id) {
            DrainView { side, ..self }
        } else {
            match result {
                Some(decoded) => DrainView {
                    side: SideView {
                        batches: side.batches + decoded.batches@,
                        l2_blocks: l2_queue::pushed_all(side.l2_blocks, decoded.l2_blocks@),
                        ..side
                    },
                    complete_channels: self.complete_channels + 1,
                    batches: self.batches + decoded.batches@.len(),
                    l2_blocks: self.l2_blocks + decoded.l2_blocks@.len(),
                    ..self
                },
                None => DrainView { side, decode_errors: self.decode_errors + 1, ..self },
            }
        }
    }

    /// The counts as they are reported.
    pub open spec fn counts(self) -> IngestedPayload {
        IngestedPayload {
            complete_channels: l2_queue::saturated(self.complete_channels),
            batches: l2_queue::saturated(self.batches),
            l2_blocks: l2_queue::saturated(self.l2_blocks),
            decode_errors: l2_queue::saturated(self.decode_errors),
        }
    }
}

/// The drain of a side over a list of channels with their decoding results.
pub open spec fn drained(
    side: SideView,
    ids: Seq<ChannelId>,
    results: Seq<Option<NormalizedChannel>>,
) -> DrainView
    decreases ids.len(),
{
    if ids.len() == 0 {
        DrainView::started(side)
    } else {
        drained(side, ids.drop_last(), results.drop_last()).after_channel(
            ids.last(),
            results.last(),
        )
    }
}

/// `count` extraction errors.
pub open spec fn extraction_errors(count: nat) -> Seq<MetricEvent> {
    Seq::new(count, |i: int| MetricEvent::Increment(Counter::ExtractionErrors, 1))
}

/// The metric updates that a handed-over frame causes.
pub open spec fn frame_events(outcome: FrameOutcome) -> Seq<MetricEvent> {
    if outcome.accepted {
        Seq::empty()
    } else {
        extraction_errors(1)
    }
}

impl View for ParitySideState {
    type V = SideView;

    open spec fn view(&self) -> SideView {
        SideView {
            channels: self.channels@.map_values(|channel: Channel| channel@),
            channel_order: self.channel_order@,
            batches: self.batches@,
            l2_blocks: l2_queue::queues(self.l2_blocks),
        }
    }
}

impl Default for ParitySideState {
    /// A side that has seen nothing.
    fn default() -> (side: Self)
        ensures
            side@ == SideView::empty(),
    {
        let side = ParitySideState {
            channels: HashMap::new(),
            channel_order: VecDeque::new(),
            batches: VecDeque::new(),
            l2_blocks: BTreeMap::new(),
        };
        assert(side@ =~= SideView::empty());
        side
    }
}

impl Default for IngestedPayload {
    /// No channels decoded.
    fn default() -> (payload: Self)
        ensures
            payload.complete_channels == 0,
            payload.batches == 0,
            payload.l2_blocks == 0,
            payload.decode_errors == 0,
    {
        IngestedPayload { complete_channels: 0, batches: 0, l2_blocks: 0, decode_errors: 0 }
    }
}

impl ParitySideState {
    /// Number of decoded batches waiting for comparison.
    pub fn pending_batches(&self) -> (count: usize)
        ensures
            count == self@.batches.len(),
    {
        self.batches.len()
    }

    /// Number of decoded L2 blocks waiting for content comparison.
    pub fn pending_l2_blocks(&self) -> (count: usize)
        ensures
            count == l2_queue::saturated(l2_queue::block_total(self@.l2_blocks)),
    {
        let timestamps = l2_queue::keys_in_order(&self.l2_blocks);
        let ghost q = self@.l2_blocks;
        let mut count: usize = 0;
        let mut i: usize = 0;
        let ghost mut exact: nat = 0;
        let ghost mut reached: nat = 0;
        while i < timestamps.len()
            invariant
                i <= timestamps.len(),
                q == self@.l2_blocks,
                l2_queue::ascending_keys(self.l2_blocks@, timestamps@),
                reached <= l2_queue::timestamp_end(),
                i == 0 ==> reached == 0,
                i > 0 ==> reached == timestamps@[i - 1] + 1,
                exact == l2_queue::blocks_below(q, reached),
                count == l2_queue::saturated(exact),
            decreases timestamps.len() - i,
        {
            let timestamp = timestamps[i];
            proof {
                assert(timestamps@.contains(timestamp));
                assert forall|t: u64| reached <= t < timestamp implies l2_queue::waiting_at(
                    q,
                    t,
                ).len() == 0 by {
                    if q.contains_key(t) {
                        assert(self.l2_blocks@.contains_key(t));
                        let k = timestamps@.index_of(t);
                        assert(timestamps@[k] == t);
                    }
                }
                l2_queue::lemma_blocks_below_gap(q, reached, timestamp as nat);
            }
            let length: usize = match self.l2_blocks.get(&timestamp) {
                Some(queue) => queue.len(),
                None => 0,
            };
            proof {
                reached = (timestamp + 1) as nat;
                exact = exact + length as nat;
                assert((reached - 1) as u64 == timestamp);
                assert(l2_queue::waiting_at(q, timestamp).len() == length);
            }
            count = count.saturating_add(length);
            i = i + 1;
        }
        proof {
            assert forall|t: u64|
                reached <= t < l2_queue::timestamp_end() implies l2_queue::waiting_at(q, t).len()
                == 0 by {
                if q.contains_key(t) {
                    assert(self.l2_blocks@.contains_key(t));
                    let k = timestamps@.index_of(t);
                    assert(timestamps@[k] == t);
                }
            }
            l2_queue::lemma_blocks_below_gap(q, reached, l2_queue::timestamp_end());
        }
        count
    }

    /// Oldest decoded L2 block timestamp waiting for content comparison.
    pub fn oldest_l2_timestamp(&self) -> (timestamp: Option<u64>)
        ensures
            timestamp == l2_queue::oldest(self@.l2_blocks),
            timestamp is None <==> self@.l2_blocks =~= Map::empty(),
    {
        let timestamps = l2_queue::keys_in_order(&self.l2_blocks);
        let ghost q = self@.l2_blocks;
        if timestamps.len() == 0 {
            proof {
                assert forall|t: u64| !q.contains_key(t) by {
                    assert(!self.l2_blocks@.contains_key(t));
                }
            }
            None
        } else {
            proof {
                let first = timestamps@[0];
                assert(timestamps@.contains(first));
                assert forall|t: u64| #[trigger] q.contains_key(t) implies first <= t by {
                    assert(self.l2_blocks@.contains_key(t));
                    let k = timestamps@.index_of(t);
                    assert(timestamps@[k] == t);
                }
                assert(l2_queue::is_oldest(q, first));
            }
            Some(timestamps[0])
        }
    }

    /// Store one decoded L2 block for future content comparison.
    pub fn push_l2_block(&mut self, block: NormalizedL2Block)
        ensures
            final(self)@ == (SideView {
                l2_blocks: l2_queue::pushed(old(self)@.l2_blocks, block),
                ..old(self)@
            }),
    {
        let timestamp = block.timestamp;
        let mut queue = match self.l2_blocks.remove(&timestamp) {
            Some(queue) => queue,
            None => VecDeque::new(),
        };
        queue.push_back(block);
        self.l2_blocks.insert(timestamp, queue);
        assert(self@.l2_blocks =~= l2_queue::pushed(old(self)@.l2_blocks, block));
    }

    /// Pop the oldest decoded L2 block for a timestamp.
    pub fn pop_l2_block(&mut self, timestamp: u64) -> (block: Option<NormalizedL2Block>)
        ensures
            block == (if l2_queue::waiting_at(old(self)@.l2_blocks, timestamp).len() > 0 {
                Some(l2_queue::waiting_at(old(self)@.l2_blocks, timestamp)[0])
            } else {
                None
            }),
            final(self)@ == (SideView {
                l2_blocks: l2_queue::advanced(old(self)@.l2_blocks, timestamp, 1),
                ..old(self)@
            }),
    {
        match self.l2_blocks.remove(&timestamp) {
            None => {
                assert(self@.l2_blocks =~= l2_queue::advanced(old(self)@.l2_blocks, timestamp, 1));
                None
            },
            Some(queue) => {
                let mut queue = queue;
                let block = queue.pop_front();
                if queue.len() > 0 {
                    self.l2_blocks.insert(timestamp, queue);
                }
                assert(self@.l2_blocks =~= l2_queue::advanced(old(self)@.l2_blocks, timestamp, 1));
                block
            },
        }
    }
}

/// Filtering one more element.
proof fn lemma_filter_take(list: Seq<ChannelId>, pred: spec_fn(ChannelId) -> bool, i: int)
    requires
        0 <= i < list.len(),
    ensures
        list.take(i + 1).filter(pred) == (if pred(list[i]) {
            list.take(i).filter(pred).push(list[i])
        } else {
            list.take(i).filter(pred)
        }),
{
    reveal(Seq::filter);
    assert(list.take(i + 1).drop_last() =~= list.take(i));
}

/// Predicates that agree on a list filter it alike.
proof fn lemma_filter_agree(
    list: Seq<ChannelId>,
    left: spec_fn(ChannelId) -> bool,
    right: spec_fn(ChannelId) -> bool,
)
    requires
        forall|i: int| 0 <= i < list.len() ==> left(#[trigger] list[i]) == right(list[i]),
    ensures
        list.filter(left) == list.filter(right),
    decreases list.len(),
{
    reveal(Seq::filter);
    if list.len() > 0 {
        lemma_filter_agree(list.drop_last(), left, right);
        assert(left(list[list.len() - 1]) == right(list[list.len() - 1]));
    }
}

/// A list without some identifiers.
fn without_ids(list: &VecDeque<ChannelId>, dropped: &Vec<ChannelId>) -> (kept: VecDeque<ChannelId>)
    ensures
        kept@ == list@.filter(|id: ChannelId| !dropped@.contains(id)),
{
    let ghost pred = |id: ChannelId| !dropped@.contains(id);
    let mut kept: VecDeque<ChannelId> = VecDeque::new();
    let mut i: usize = 0;
    assert(list@.take(0).filter(pred) =~= Seq::empty()) by {
        reveal(Seq::filter);
    }
    while i < list.len()
        invariant
            i <= list.len(),
            pred == (|id: ChannelId| !dropped@.contains(id)),
            kept@ == list@.take(i as int).filter(pred),
        decreases list.len() - i,
    {
        let id = list[i];
        let mut found = false;
        let mut k: usize = 0;
        while k < dropped.len()
            invariant
                k <= dropped.len(),
                found <==> exists|j: int| 0 <= j < k && dropped@[j] == id,
            decreases dropped.len() - k,
        {
            if dropped[k] == id {
                found = true;
            }
            k = k + 1;
        }
        proof {
            assert(found <==> dropped@.contains(id));
            lemma_filter_take(list@, pred, i as int);
        }
        if !found {
            kept.push_back(id);
        }
        i = i + 1;
    }
    assert(list@.take(list@.len() as int) =~= list@);
    kept
}

/// Handling one more channel.
proof fn lemma_drained_push(
    side: SideView,
    ids: Seq<ChannelId>,
    results: Seq<Option<NormalizedChannel>>,
    id: ChannelId,
    result: Option<NormalizedChannel>,
)
    ensures
        drained(side, ids.push(id), results.push(result)) == drained(
            side,
            ids,
            results,
        ).after_channel(id, result),
{
    assert(ids.push(id).drop_last() =~= ids);
    assert(results.push(result).drop_last() =~= results);
}

/// Handing over one more frame.
proof fn lemma_after_frames_push(
    side: SideView,
    frames: Seq<Frame>,
    block: BlockInfo,
    outcomes: Seq<FrameOutcome>,
    frame: Frame,
    outcome: FrameOutcome,
)
    ensures
        side.after_frames(frames.push(frame), block, outcomes.push(outcome))
            == side.after_frames(frames, block, outcomes).after_frame(frame, block, outcome),
        frames_events(outcomes.push(outcome)) == frames_events(outcomes) + frame_events(outcome),
{
    assert(frames.push(frame).drop_last() =~= frames);
    assert(outcomes.push(outcome).drop_last() =~= outcomes);
}

/// A drain's reported counts do not depend on when they saturate.
proof fn lemma_counts_saturate(drain: DrainView, id: ChannelId, result: Option<NormalizedChannel>)
    ensures
        ({
            let reported = drain.counts();
            let rounded = DrainView {
                side: drain.side,
                complete_channels: reported.complete_channels as nat,
                batches: reported.batches as nat,
                l2_blocks: reported.l2_blocks as nat,
                decode_errors: reported.decode_errors as nat,
            };
            &&& rounded.after_channel(id, result).side == drain.after_channel(id, result).side
            &&& rounded.after_channel(id, result).counts() == drain.after_channel(
                id,
                result,
            ).counts()
            &&& rounded.after_channel(id, result).decode_errors - rounded.decode_errors
                == drain.after_channel(id, result).decode_errors - drain.decode_errors
        }),
{
}

/// A drain removes exactly the channels it handles.
proof fn lemma_drained_channels(
    side: SideView,
    ids: Seq<ChannelId>,
    results: Seq<Option<NormalizedChannel>>,
)
    requires
        results.len() == ids.len(),
    ensures
        drained(side, ids, results).side.channels == side.channels.remove_keys(ids.to_set()),
    decreases ids.len(),
{
    if ids.len() == 0 {
        assert(side.channels.remove_keys(ids.to_set()) =~= side.channels);
    } else {
        lemma_drained_channels(side, ids.drop_last(), results.drop_last());
        let before = ids.drop_last();
        assert forall|id: ChannelId| ids.contains(id) <==> before.contains(id) || id
            == ids.last() by {
            if ids.contains(id) {
                let k = ids.index_of(id);
                if k < before.len() {
                    assert(before[k] == id);
                }
            }
            if before.contains(id) {
                let k = before.index_of(id);
                assert(ids[k] == id);
            }
            assert(ids[ids.len() - 1] == ids.last());
        }
        assert(side.channels.remove_keys(before.to_set()).remove(ids.last())
            =~= side.channels.remove_keys(ids.to_set()));
    }
}

impl<
    P: Fn(&[u8]) -> Result<Vec<Frame>, FrameParseError>,
    A: Fn(&Channel, &Frame, &BlockInfo) -> FrameOutcome,
    N: Fn(&Channel, u64) -> Option<NormalizedChannel>,
    T: Fn(u64) -> u64,
    D: Fn(&Vec<u8>) -> Result<Vec<u8>, BlobDecodeError>,
> DerivationCodec<P, A, N, T, D> {
    /// Handing the frames to a side in order may have the outcomes.
    pub open spec fn adds_all(
        self,
        side: SideView,
        frames: Seq<Frame>,
        block: BlockInfo,
        outcomes: Seq<FrameOutcome>,
    ) -> bool {
        &&& outcomes.len() == frames.len()
        &&& forall|i: int|
            0 <= i < frames.len() ==> self.adds(
                side.after_frames(frames.take(i), block, outcomes.take(i)).channel_for(
                    frames[i].id,
                    block,
                ),
                #[trigger] frames[i],
                block,
                outcomes[i],
            )
    }

    /// Handing over one more frame.
    proof fn lemma_adds_all_push(
        self,
        side: SideView,
        frames: Seq<Frame>,
        block: BlockInfo,
        outcomes: Seq<FrameOutcome>,
        frame: Frame,
        outcome: FrameOutcome,
    )
        requires
            self.adds_all(side, frames, block, outcomes),
            self.adds(
                side.after_frames(frames, block, outcomes).channel_for(frame.id, block),
                frame,
                block,
                outcome,
            ),
        ensures
            self.adds_all(side, frames.push(frame), block, outcomes.push(outcome)),
    {
        let more = frames.push(frame);
        let extended = outcomes.push(outcome);
        assert forall|i: int| 0 <= i < more.len() implies self.adds(
            side.after_frames(more.take(i), block, extended.take(i)).channel_for(more[i].id, block),
            #[trigger] more[i],
            block,
            extended[i],
        ) by {
            if i < frames.len() {
                assert(more.take(i) =~= frames.take(i));
                assert(extended.take(i) =~= outcomes.take(i));
                assert(more[i] == frames[i]);
            } else {
                assert(more.take(i) =~= frames);
                assert(extended.take(i) =~= outcomes);
            }
        }
    }

    /// Decoding the complete channels of a side may give the results. A channel
    /// that the first-seen order names again is not decoded again.
    pub open spec fn decodes_ready(
        self,
        side: SideView,
        timestamp: u64,
        results: Seq<Option<NormalizedChannel>>,
    ) -> bool {
        let ids = side.ready_ids();
        &&& results.len() == ids.len()
        &&& forall|i: int|
            0 <= i < ids.len() && !ids.take(i).contains(#[trigger] ids[i]) ==> self.normalizes(
                side.channels[ids[i]],
                timestamp,
                results[i],
            )
    }

    /// The payload may parse into the frames, they may have the outcomes and the
    /// channels that they complete may decode to the results; the side, the
    /// counts and the metric updates are then as given.
    pub open spec fn ingests_via(
        self,
        pre: SideView,
        payload: Seq<u8>,
        block: BlockInfo,
        frames: Vec<Frame>,
        outcomes: Seq<FrameOutcome>,
        results: Seq<Option<NormalizedChannel>>,
        post: SideView,
        ingested: IngestedPayload,
        events: Seq<MetricEvent>,
    ) -> bool {
        let filled = pre.after_frames(frames@, block, outcomes);
        let drain = drained(filled, filled.ready_ids(), results);
        &&& self.parses(payload, Ok(frames))
        &&& self.adds_all(pre, frames@, block, outcomes)
        &&& self.decodes_ready(filled, block.timestamp, results)
        &&& post == drain.side
        &&& ingested == drain.counts()
        &&& events == frames_events(outcomes) + extraction_errors(drain.decode_errors)
    }

    /// The payload may parse, and ingesting its frames may take a side from
    /// `pre` to `post` with the counts and the metric updates.
    pub open spec fn ingests_frames(
        self,
        pre: SideView,
        payload: Seq<u8>,
        block: BlockInfo,
        post: SideView,
        ingested: IngestedPayload,
        events: Seq<MetricEvent>,
    ) -> bool {
        exists|
            frames: Vec<Frame>,
            outcomes: Seq<FrameOutcome>,
            results: Seq<Option<NormalizedChannel>>,
        | #[trigger]
            self.ingests_via(
                pre,
                payload,
                block,
                frames,
                outcomes,
                results,
                post,
                ingested,
                events,
            )
    }

    /// Ingesting a payload may take a side from `pre` to `post` with the result
    /// and the metric updates.
    ///
    /// A payload that does not parse changes nothing. Otherwise every frame is
    /// handed to its channel in order, and then every complete channel is
    /// decoded and drained.
    pub open spec fn ingests(
        self,
        pre: SideView,
        payload: Seq<u8>,
        block: BlockInfo,
        post: SideView,
        result: Result<IngestedPayload, ParityError>,
        events: Seq<MetricEvent>,
    ) -> bool {
        match result {
            Err(ParityError::FrameParse(error)) => {
                &&& self.parses(payload, Err(error))
                &&& post == pre
                &&& events == Seq::<MetricEvent>::empty()
            },
            Err(ParityError::BlobDecode(error)) => false,
            Ok(ingested) => self.ingests_frames(pre, payload, block, post, ingested, events),
        }
    }
}

impl<
    P: Fn(&[u8]) -> Result<Vec<Frame>, FrameParseError>,
    A: Fn(&Channel, &Frame, &BlockInfo) -> FrameOutcome,
    N: Fn(&Channel, u64) -> Option<NormalizedChannel>,
    T: Fn(u64) -> u64,
    D: Fn(&Vec<u8>) -> Result<Vec<u8>, BlobDecodeError>,
> DerivationCodec<P, A, N, T, D> {
    /// A payload that parsed and was drained was ingested.
    proof fn lemma_ingests(
        self,
        pre: SideView,
        payload: Seq<u8>,
        block: BlockInfo,
        frames: Vec<Frame>,
        outcomes: Seq<FrameOutcome>,
        results: Seq<Option<NormalizedChannel>>,
        post: SideView,
        ingested: IngestedPayload,
        events: Seq<MetricEvent>,
    )
        requires
            self.ingests_via(
                pre,
                payload,
                block,
                frames,
                outcomes,
                results,
                post,
                ingested,
                events,
            ),
        ensures
            self.ingests(pre, payload, block, post, Ok(ingested), events),
    {
    }
}

/// The metric updates that handed-over frames cause.
pub open spec fn frames_events(outcomes: Seq<FrameOutcome>) -> Seq<MetricEvent>
    decreases outcomes.len(),
{
    if outcomes.len() == 0 {
        Seq::empty()
    } else {
        frames_events(outcomes.drop_last()) + frame_events(outcomes.last())
    }
}

impl ParitySideState {
    /// Hands one frame to its channel, with what becomes of it there.
    pub fn record_frame(
        &mut self,
        frame: Frame,
        block_info: BlockInfo,
        outcome: FrameOutcome,
        metrics: &mut BatcherServiceMetrics,
    )
        ensures
            final(self)@ == old(self)@.after_frame(frame, block_info, outcome),
            final(metrics)@ == old(metrics)@ + frame_events(outcome),
    {
        let id = frame.id;
        let mut channel = match self.channels.remove(&id) {
            Some(channel) => channel,
            None => {
                self.channel_order.push_back(id);
                Channel::new(id, block_info)
            },
        };
        channel.record_frame(frame, block_info, outcome);
        self.channels.insert(id, channel);
        if !outcome.accepted {
            metrics.increment(Counter::ExtractionErrors, 1);
        }
        proof {
            assert(self@.channels =~= old(self)@.after_frame(frame, block_info, outcome).channels);
            assert(metrics@ =~= old(metrics)@ + frame_events(outcome));
        }
    }

    /// Ingest one frame.
    pub fn ingest_frame<
        P: Fn(&[u8]) -> Result<Vec<Frame>, FrameParseError>,
        A: Fn(&Channel, &Frame, &BlockInfo) -> FrameOutcome,
        N: Fn(&Channel, u64) -> Option<NormalizedChannel>,
        T: Fn(u64) -> u64,
        D: Fn(&Vec<u8>) -> Result<Vec<u8>, BlobDecodeError>,
    >(
        &mut self,
        frame: Frame,
        block_info: BlockInfo,
        codec: &DerivationCodec<P, A, N, T, D>,
        metrics: &mut BatcherServiceMetrics,
    ) -> (outcome: FrameOutcome)
        requires
            codec.total(),
        ensures
            codec.adds(
                old(self)@.channel_for(frame.id, block_info),
                frame,
                block_info,
                outcome,
            ),
            final(self)@ == old(self)@.after_frame(frame, block_info, outcome),
            final(metrics)@ == old(metrics)@ + frame_events(outcome),
    {
        let outcome = match self.channels.get(&frame.id) {
            Some(channel) => codec.add(channel, &frame, &block_info),
            None => {
                let channel = Channel::new(frame.id, block_info);
                codec.add(&channel, &frame, &block_info)
            },
        };
        self.record_frame(frame, block_info, outcome, metrics);
        outcome
    }

    /// The complete channels, in first-seen order.
    pub fn ready_channels(&self) -> (ids: Vec<ChannelId>)
        ensures
            ids@ == self@.ready_ids(),
    {
        let ghost pred = is_ready(self@.channels);
        let mut ids: Vec<ChannelId> = Vec::new();
        let mut i: usize = 0;
        assert(self@.channel_order.take(0).filter(pred) =~= Seq::empty()) by {
            reveal(Seq::filter);
        }
        while i < self.channel_order.len()
            invariant
                i <= self.channel_order.len(),
                pred == is_ready(self@.channels),
                ids@ == self@.channel_order.take(i as int).filter(pred),
            decreases self.channel_order.len() - i,
        {
            let id = self.channel_order[i];
            let ready = match self.channels.get(&id) {
                Some(channel) => channel.is_ready(),
                None => false,
            };
            proof {
                lemma_filter_take(self@.channel_order, pred, i as int);
            }
            if ready {
                ids.push(id);
            }
            i = i + 1;
        }
        assert(self@.channel_order.take(self@.channel_order.len() as int)
            =~= self@.channel_order);
        ids
    }

    /// Removes one complete channel and queues what its decoding gave.
    pub fn absorb_channel(
        &mut self,
        id: ChannelId,
        result: Option<NormalizedChannel>,
        progress: &mut IngestedPayload,
        metrics: &mut BatcherServiceMetrics,
    )
        ensures
            ({
                let before = DrainView {
                    side: old(self)@,
                    complete_channels: old(progress).complete_channels as nat,
                    batches: old(progress).batches as nat,
                    l2_blocks: old(progress).l2_blocks as nat,
                    decode_errors: old(progress).decode_errors as nat,
                };
                let after = before.after_channel(id, result);
                &&& final(self)@ == after.side
                &&& *final(progress) == after.counts()
                &&& final(metrics)@ == old(metrics)@ + extraction_errors(
                    (after.decode_errors - before.decode_errors) as nat,
                )
            }),
    {
        let ghost pre = self@;
        let ghost recorded = metrics@;
        let mut handled: Vec<ChannelId> = Vec::new();
        handled.push(id);
        self.channel_order = without_ids(&self.channel_order, &handled);
        let present = match self.channels.remove(&id) {
            Some(_) => true,
            None => false,
        };
        proof {
            assert(handled@ =~= seq![id]);
            assert forall|queued: ChannelId| handled@.contains(queued) <==> queued == id by {
                assert(handled@[0] == id);
            }
            lemma_filter_agree(
                pre.channel_order,
                |queued: ChannelId| !handled@.contains(queued),
                other_than(id),
            );
            assert(self@.channels =~= pre.channels.remove(id));
            assert(recorded =~= recorded + extraction_errors(0));
        }
        if !present {
            return ;
        }
        match result {
            Some(decoded) => {
                let NormalizedChannel { batches, l2_blocks } = decoded;
                progress.complete_channels = progress.complete_channels.saturating_add(1);
                progress.batches = progress.batches.saturating_add(batches.len());
                progress.l2_blocks = progress.l2_blocks.saturating_add(l2_blocks.len());
                let ghost queued = self@;
                let ghost all = batches@;
                for batch in it: batches
                    invariant
                        it.seq() == all,
                        self@ == (SideView {
                            batches: queued.batches + all.take(it.index() as int),
                            ..queued
                        }),
                {
                    self.batches.push_back(batch);
                    proof {
                        assert(self@.batches =~= queued.batches + all.take(it.index() + 1));
                    }
                }
                let ghost stored = self@;
                let ghost blocks = l2_blocks@;
                for block in it: l2_blocks
                    invariant
                        it.seq() == blocks,
                        self@ == (SideView {
                            l2_blocks: l2_queue::pushed_all(
                                stored.l2_blocks,
                                blocks.take(it.index() as int),
                            ),
                            ..stored
                        }),
                {
                    self.push_l2_block(block);
                    proof {
                        assert(blocks.take(it.index() + 1).drop_last() =~= blocks.take(
                            it.index() as int,
                        ));
                    }
                }
                proof {
                    assert(all.take(all.len() as int) =~= all);
                    assert(blocks.take(blocks.len() as int) =~= blocks);
                }
            },
            None => {
                progress.decode_errors = progress.decode_errors.saturating_add(1);
                metrics.increment(Counter::ExtractionErrors, 1);
                assert(metrics@ =~= recorded + extraction_errors(1));
            },
        }
    }

    /// Drain every ready channel into the decoded-batch queue.
    pub fn drain_ready_channels<
        P: Fn(&[u8]) -> Result<Vec<Frame>, FrameParseError>,
        A: Fn(&Channel, &Frame, &BlockInfo) -> FrameOutcome,
        N: Fn(&Channel, u64) -> Option<NormalizedChannel>,
        T: Fn(u64) -> u64,
        D: Fn(&Vec<u8>) -> Result<Vec<u8>, BlobDecodeError>,
    >(
        &mut self,
        inclusion_timestamp: u64,
        codec: &DerivationCodec<P, A, N, T, D>,
        metrics: &mut BatcherServiceMetrics,
    ) -> (ingested: IngestedPayload)
        requires
            codec.total(),
        ensures
            exists|results: Seq<Option<NormalizedChannel>>|
                {
                    let drain = drained(old(self)@, old(self)@.ready_ids(), results);
                    &&& #[trigger] codec.decodes_ready(old(self)@, inclusion_timestamp, results)
                    &&& final(self)@ == drain.side
                    &&& ingested == drain.counts()
                    &&& final(metrics)@ == old(metrics)@ + extraction_errors(drain.decode_errors)
                },
    {
        let ghost pre = self@;
        let ghost recorded = metrics@;
        let ids = self.ready_channels();
        let mut ingested = IngestedPayload::default();
        let ghost mut results: Seq<Option<NormalizedChannel>> = Seq::empty();
        let ghost mut drain = DrainView::started(pre);
        let mut i: usize = 0;
        proof {
            assert(recorded =~= recorded + extraction_errors(0));
            assert(ids@.take(0) =~= Seq::empty());
        }
        while i < ids.len()
            invariant
                i <= ids.len(),
                ids@ == pre.ready_ids(),
                codec.total(),
                results.len() == i,
                drain == drained(pre, ids@.take(i as int), results),
                self@ == drain.side,
                ingested == drain.counts(),
                metrics@ == recorded + extraction_errors(drain.decode_errors),
                forall|k: int|
                    0 <= k < i && !ids@.take(k).contains(#[trigger] ids@[k]) ==> codec.normalizes(
                        pre.channels[ids@[k]],
                        inclusion_timestamp,
                        results[k],
                    ),
            decreases ids.len() - i,
        {
            let id = ids[i];
            let ghost handled = ids@.take(i as int);
            proof {
                lemma_drained_channels(pre, handled, results);
                pre.channel_order.lemma_filter_pred(is_ready(pre.channels), i as int);
            }
            let result = match self.channels.get(&id) {
                Some(channel) => codec.normalize(channel, inclusion_timestamp),
                None => None,
            };
            let ghost before = metrics@;
            proof {
                if !handled.contains(id) {
                    assert(self@.channels.contains_key(id));
                    assert(self@.channels[id] == pre.channels[id]);
                    assert(codec.normalizes(pre.channels[id], inclusion_timestamp, result));
                }
                assert(ids@.take(i + 1) =~= handled.push(id));
                lemma_drained_push(pre, handled, results, id, result);
                lemma_counts_saturate(drain, id, result);
            }
            self.absorb_channel(id, result, &mut ingested, metrics);
            proof {
                let after = drain.after_channel(id, result);
                let more = (after.decode_errors - drain.decode_errors) as nat;
                assert(metrics@ == before + extraction_errors(more));
                assert(metrics@ =~= recorded + extraction_errors(after.decode_errors));
                drain = after;
                results = results.push(result);
            }
            i = i + 1;
        }
        proof {
            assert(ids@.take(ids@.len() as int) =~= ids@);
            assert(codec.decodes_ready(pre, inclusion_timestamp, results));
        }
        ingested
    }

    /// Ingest one DA payload into this side.
    pub fn ingest_payload<
        P: Fn(&[u8]) -> Result<Vec<Frame>, FrameParseError>,
        A: Fn(&Channel, &Frame, &BlockInfo) -> FrameOutcome,
        N: Fn(&Channel, u64) -> Option<NormalizedChannel>,
        T: Fn(u64) -> u64,
        D: Fn(&Vec<u8>) -> Result<Vec<u8>, BlobDecodeError>,
    >(
        &mut self,
        payload: &[u8],
        block_info: BlockInfo,
        codec: &DerivationCodec<P, A, N, T, D>,
        metrics: &mut BatcherServiceMetrics,
    ) -> (result: Result<IngestedPayload, ParityError>)
        requires
            codec.total(),
        ensures
            exists|events: Seq<MetricEvent>|
                #[trigger] codec.ingests(
                    old(self)@,
                    payload@,
                    block_info,
                    final(self)@,
                    result,
                    events,
                ) && final(metrics)@ == old(metrics)@ + events,
    {
        let ghost pre = self@;
        let ghost recorded = metrics@;
        let frames = match codec.parse(payload) {
            Ok(frames) => frames,
            Err(error) => {
                let result: Result<IngestedPayload, ParityError> = Err(
                    ParityError::FrameParse(error),
                );
                proof {
                    assert(codec.ingests(pre, payload@, block_info, self@, result, Seq::empty()));
                    assert(metrics@ =~= recorded + Seq::empty());
                }
                return result;
            },
        };
        let ghost parsed = frames;
        let ghost mut outcomes: Seq<FrameOutcome> = Seq::empty();
        proof {
            assert(recorded + frames_events(outcomes) =~= recorded);
            assert(parsed@.take(0) =~= Seq::empty());
        }
        for frame in it: frames
            invariant
                it.seq() == parsed@,
                codec.total(),
                outcomes.len() == it.index(),
                self@ == pre.after_frames(parsed@.take(it.index() as int), block_info, outcomes),
                metrics@ == recorded + frames_events(outcomes),
                codec.adds_all(pre, parsed@.take(it.index() as int), block_info, outcomes),
        {
            let ghost n = it.index() as int;
            let outcome = self.ingest_frame(frame, block_info, codec, metrics);
            proof {
                let seen = parsed@.take(n);
                assert(parsed@.take(n + 1) =~= seen.push(frame));
                lemma_after_frames_push(pre, seen, block_info, outcomes, frame, outcome);
                codec.lemma_adds_all_push(pre, seen, block_info, outcomes, frame, outcome);
                assert(metrics@ =~= recorded + frames_events(outcomes.push(outcome)));
                outcomes = outcomes.push(outcome);
            }
        }
        assert(parsed@.take(parsed@.len() as int) =~= parsed@);
        let ghost filled = self@;
        let ghost filled_metrics = metrics@;
        let ingested = self.drain_ready_channels(block_info.timestamp, codec, metrics);
        let result: Result<IngestedPayload, ParityError> = Ok(ingested);
        proof {
            let results = choose|results: Seq<Option<NormalizedChannel>>|
                {
                    let drain = drained(filled, filled.ready_ids(), results);
                    &&& #[trigger] codec.decodes_ready(filled, block_info.timestamp, results)
                    &&& self@ == drain.side
                    &&& ingested == drain.counts()
                    &&& metrics@ == filled_metrics + extraction_errors(drain.decode_errors)
                };
            let drain = drained(filled, filled.ready_ids(), results);
            let events = frames_events(outcomes) + extraction_errors(drain.decode_errors);
            assert(codec.adds_all(pre, parsed@, block_info, outcomes));
            assert(codec.parses(payload@, Ok(parsed)));
            codec.lemma_ingests(
                pre,
                payload@,
                block_info,
                parsed,
                outcomes,
                results,
                self@,
                ingested,
                events,
            );
            assert(metrics@ =~= recorded + events);
        }
        result
    }

    /// Evict incomplete channels that exceeded the rollup channel timeout.
    pub fn evict_expired_channels<
        P: Fn(&[u8]) -> Result<Vec<Frame>, FrameParseError>,
        A: Fn(&Channel, &Frame, &BlockInfo) -> FrameOutcome,
        N: Fn(&Channel, u64) -> Option<NormalizedChannel>,
        T: Fn(u64) -> u64,
        D: Fn(&Vec<u8>) -> Result<Vec<u8>, BlobDecodeError>,
    >(
        &mut self,
        l1_block: u64,
        l1_timestamp: u64,
        codec: &DerivationCodec<P, A, N, T, D>,
    ) -> (evicted: usize)
        requires
            codec.total(),
        ensures
            exists|timeout: u64|
                {
                    &&& #[trigger] codec.times_out(l1_timestamp, timeout)
                    &&& evicted == old(self)@.expired_ids(l1_block, timeout).len()
                    &&& final(self)@ == old(self)@.without_expired(l1_block, timeout)
                },
    {
        let timeout = codec.timeout(l1_timestamp);
        self.evict_older_channels(l1_block, timeout)
    }

    /// Evict the channels that opened more than `timeout` blocks before an L1
    /// block.
    pub fn evict_older_channels(&mut self, l1_block: u64, timeout: u64) -> (evicted: usize)
        ensures
            evicted == old(self)@.expired_ids(l1_block, timeout).len(),
            final(self)@ == old(self)@.without_expired(l1_block, timeout),
    {
        let ghost pre = self@;
        let ghost pred = is_expired(pre.channels, l1_block, timeout);
        let mut expired: Vec<ChannelId> = Vec::new();
        let mut i: usize = 0;
        assert(pre.channel_order.take(0).filter(pred) =~= Seq::empty()) by {
            reveal(Seq::filter);
        }
        while i < self.channel_order.len()
            invariant
                i <= self.channel_order.len(),
                self@ == pre,
                pred == is_expired(pre.channels, l1_block, timeout),
                expired@ == pre.channel_order.take(i as int).filter(pred),
            decreases self.channel_order.len() - i,
        {
            let id = self.channel_order[i];
            let is_late = match self.channels.get(&id) {
                Some(channel) => channel.open_block_number().saturating_add(timeout) < l1_block,
                None => false,
            };
            proof {
                lemma_filter_take(pre.channel_order, pred, i as int);
            }
            if is_late {
                expired.push(id);
            }
            i = i + 1;
        }
        assert(pre.channel_order.take(pre.channel_order.len() as int) =~= pre.channel_order);
        let mut k: usize = 0;
        assert(pre.channels.remove_keys(expired@.take(0).to_set()) =~= pre.channels);
        while k < expired.len()
            invariant
                k <= expired.len(),
                self@ == (SideView {
                    channels: pre.channels.remove_keys(expired@.take(k as int).to_set()),
                    ..pre
                }),
            decreases expired.len() - k,
        {
            let ghost before = self@.channels;
            self.channels.remove(&expired[k]);
            proof {
                let seen = expired@.take(k as int);
                let more = expired@.take(k + 1);
                assert(more =~= seen.push(expired@[k as int]));
                assert forall|id: ChannelId| more.contains(id) <==> seen.contains(id) || id
                    == expired@[k as int] by {
                    if seen.contains(id) {
                        let j = seen.index_of(id);
                        assert(more[j] == id);
                    }
                    assert(more[k as int] == expired@[k as int]);
                }
                assert(self@.channels =~= before.remove(expired@[k as int]));
                assert(self@.channels =~= pre.channels.remove_keys(more.to_set()));
            }
            k = k + 1;
        }
        assert(expired@.take(expired@.len() as int) =~= expired@);
        self.channel_order = without_ids(&self.channel_order, &expired);
        proof {
            assert forall|j: int| 0 <= j < pre.channel_order.len() implies (!expired@.contains(
                #[trigger] pre.channel_order[j],
            )) == negated(pred)(pre.channel_order[j]) by {
                let id = pre.channel_order[j];
                if pred(id) {
                    pre.channel_order.lemma_filter_contains(pred, j);
                } else if expired@.contains(id) {
                    let m = expired@.index_of(id);
                    pre.channel_order.lemma_filter_pred(pred, m);
                }
            }
            lemma_filter_agree(
                pre.channel_order,
                |id: ChannelId| !expired@.contains(id),
                negated(pred),
            );
        }
        expired.len()
    }
}

} // verus!
