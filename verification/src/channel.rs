//! Frames, channels and the codec that interprets them.

use crate::normalized::{B256, NormalizedBatch, NormalizedL2Block};
use vstd::prelude::*;

verus! {

/// Identifier of a channel: its 16 bytes read as a big-endian number.
pub type ChannelId = u128;

/// An L1 block, as far as derivation looks at it.
#[derive(Clone, Copy, Debug)]
pub struct BlockInfo {
    /// Hash of the block.
    pub hash: B256,
    /// Number of the block.
    pub number: u64,
    /// Hash of the parent block.
    pub parent_hash: B256,
    /// Timestamp of the block.
    pub timestamp: u64,
}

/// One frame of a channel.
#[derive(Clone, Debug)]
pub struct Frame {
    /// Channel that the frame belongs to.
    pub id: ChannelId,
    /// Position of the frame in its channel.
    pub number: u16,
    /// Payload of the frame.
    pub data: Vec<u8>,
    /// Whether the frame closes its channel.
    pub is_last: bool,
}

/// A channel that is being assembled.
///
/// The channel keeps every frame that was handed to it, in order, so that its
/// contents can be rebuilt from its opening block and its frames.
#[derive(Debug)]
pub struct Channel {
    /// Identifier of the channel.
    pub id: ChannelId,
    /// L1 block in which the channel was first seen.
    pub open_block: BlockInfo,
    /// Frames handed to the channel, each with its inclusion block.
    pub frames: Vec<(Frame, BlockInfo)>,
    /// Whether all frames of the channel are present.
    pub ready: bool,
}

/// What a channel holds, with its frames as a sequence.
#[verifier::ext_equal]
pub struct ChannelView {
    pub id: ChannelId,
    pub open_block: BlockInfo,
    pub frames: Seq<(Frame, BlockInfo)>,
    pub ready: bool,
}

/// What became of a frame that was handed to a channel.
#[derive(Clone, Copy, Debug, PartialEq, Eq, Structural)]
pub struct FrameOutcome {
    /// Whether the channel accepted the frame.
    pub accepted: bool,
    /// Whether all frames of the channel are present afterwards.
    pub ready: bool,
}

/// The batches and L2 blocks of one decoded channel.
#[derive(Debug)]
pub struct NormalizedChannel {
    /// Decoded batches, in order.
    pub batches: Vec<NormalizedBatch>,
    /// Decoded L2 blocks, in order.
    pub l2_blocks: Vec<NormalizedL2Block>,
}

/// A blob payload could not be decoded.
#[derive(Clone, Debug)]
pub struct BlobDecodeError {
    /// What was wrong with the blob.
    pub message: String,
}

/// A payload could not be split into frames.
#[derive(Clone, Debug)]
pub struct FrameParseError {
    /// What was wrong with the payload.
    pub message: String,
}

impl View for Channel {
    type V = ChannelView;

    open spec fn view(&self) -> ChannelView {
        ChannelView {
            id: self.id,
            open_block: self.open_block,
            frames: self.frames@,
            ready: self.ready,
        }
    }
}

impl ChannelView {
    /// A channel without frames.
    pub open spec fn opened(id: ChannelId, open_block: BlockInfo) -> ChannelView {
        ChannelView { id, open_block, frames: Seq::empty(), ready: false }
    }

    /// The channel after a frame was handed to it.
    pub open spec fn after_frame(
        self,
        frame: Frame,
        block: BlockInfo,
        outcome: FrameOutcome,
    ) -> ChannelView {
        ChannelView {
            id: self.id,
            open_block: self.open_block,
            frames: self.frames.push((frame, block)),
            ready: outcome.ready,
        }
    }
}

impl Channel {
    /// Opens a channel in an L1 block.
    pub fn new(id: ChannelId, open_block: BlockInfo) -> (channel: Channel)
        ensures
            channel@ == ChannelView::opened(id, open_block),
            channel.id == id,
            channel.open_block == open_block,
            channel.frames@.len() == 0,
            !channel.ready,
    {
        Channel { id, open_block, frames: Vec::new(), ready: false }
    }

    /// Whether all frames of the channel are present.
    pub fn is_ready(&self) -> (ready: bool)
        ensures
            ready == self@.ready,
            ready == self.ready,
    {
        self.ready
    }

    /// Number of the L1 block in which the channel was first seen.
    pub fn open_block_number(&self) -> (number: u64)
        ensures
            number == self@.open_block.number,
            number == self.open_block.number,
    {
        self.open_block.number
    }

    /// Keeps a frame that was handed to the channel, with what became of it.
    pub fn record_frame(&mut self, frame: Frame, block: BlockInfo, outcome: FrameOutcome)
        ensures
            final(self)@ == old(self)@.after_frame(frame, block, outcome),
            final(self).id == old(self).id,
            final(self).open_block == old(self).open_block,
            final(self).frames@ == old(self).frames@.push((frame, block)),
            final(self).ready == outcome.ready,
    {
        self.frames.push((frame, block));
        self.ready = outcome.ready;
    }
}

/// The derivation operations of a rollup: they interpret payloads, frames and
/// channels under the rollup's configuration.
///
/// The library hands these operations their inputs and acts on their results;
/// it holds for every result that they may give.
pub struct DerivationCodec<P, A, N, T, D> {
    /// Splits a payload into frames.
    pub parse_frames: P,
    /// Tells what becomes of a frame that a channel receives in a block.
    pub add_frame: A,
    /// Decodes a complete channel included at a timestamp; `None` when its
    /// contents are corrupt.
    pub normalize_channel: N,
    /// The channel timeout, in L1 blocks, in force at an L1 timestamp.
    pub channel_timeout: T,
    /// Decodes the payload that a blob carries.
    pub decode_blob: D,
}

impl<
    P: Fn(&[u8]) -> Result<Vec<Frame>, FrameParseError>,
    A: Fn(&Channel, &Frame, &BlockInfo) -> FrameOutcome,
    N: Fn(&Channel, u64) -> Option<NormalizedChannel>,
    T: Fn(u64) -> u64,
    D: Fn(&Vec<u8>) -> Result<Vec<u8>, BlobDecodeError>,
> DerivationCodec<P, A, N, T, D> {
    /// The operations accept all inputs.
    pub open spec fn total(self) -> bool {
        &&& forall|payload: &[u8]| call_requires(self.parse_frames, (payload,))
        &&& forall|channel: &Channel, frame: &Frame, block: &BlockInfo|
            call_requires(self.add_frame, (channel, frame, block))
        &&& forall|channel: &Channel, timestamp: u64|
            call_requires(self.normalize_channel, (channel, timestamp))
        &&& forall|timestamp: u64| call_requires(self.channel_timeout, (timestamp,))
        &&& forall|blob: &Vec<u8>| call_requires(self.decode_blob, (blob,))
    }

    /// Parsing the payload may give the result.
    pub open spec fn parses(
        self,
        payload: Seq<u8>,
        result: Result<Vec<Frame>, FrameParseError>,
    ) -> bool {
        exists|bytes: &[u8]|
            bytes@ == payload && #[trigger] call_ensures(self.parse_frames, (bytes,), result)
    }

    /// Handing the frame to the channel may have the outcome.
    pub open spec fn adds(
        self,
        channel: ChannelView,
        frame: Frame,
        block: BlockInfo,
        outcome: FrameOutcome,
    ) -> bool {
        exists|c: Channel|
            c@ == channel && #[trigger] call_ensures(
                self.add_frame,
                (&c, &frame, &block),
                outcome,
            )
    }

    /// Decoding the channel may give the result.
    pub open spec fn normalizes(
        self,
        channel: ChannelView,
        timestamp: u64,
        result: Option<NormalizedChannel>,
    ) -> bool {
        exists|c: Channel|
            c@ == channel && #[trigger] call_ensures(
                self.normalize_channel,
                (&c, timestamp),
                result,
            )
    }

    /// The channel timeout at the timestamp may be the given one.
    pub open spec fn times_out(self, timestamp: u64, timeout: u64) -> bool {
        call_ensures(self.channel_timeout, (timestamp,), timeout)
    }

    /// Decoding the blob may give the result.
    pub open spec fn decodes_blob(
        self,
        blob: Seq<u8>,
        result: Result<Vec<u8>, BlobDecodeError>,
    ) -> bool {
        exists|bytes: Vec<u8>|
            bytes@ == blob && #[trigger] call_ensures(self.decode_blob, (&bytes,), result)
    }

    /// The operations are functions: what they give is decided by the contents
    /// of what they are given.
    pub open spec fn functional(self) -> bool {
        &&& forall|
            payload: Seq<u8>,
            left: Result<Vec<Frame>, FrameParseError>,
            right: Result<Vec<Frame>, FrameParseError>,
        | #[trigger]
            self.parses(payload, left) && #[trigger] self.parses(payload, right) ==> left == right
        &&& forall|
            channel: ChannelView,
            frame: Frame,
            block: BlockInfo,
            left: FrameOutcome,
            right: FrameOutcome,
        | #[trigger]
            self.adds(channel, frame, block, left) && #[trigger] self.adds(
                channel,
                frame,
                block,
                right,
            ) ==> left == right
        &&& forall|
            channel: ChannelView,
            timestamp: u64,
            left: Option<NormalizedChannel>,
            right: Option<NormalizedChannel>,
        | #[trigger]
            self.normalizes(channel, timestamp, left) && #[trigger] self.normalizes(
                channel,
                timestamp,
                right,
            ) ==> left == right
        &&& forall|timestamp: u64, left: u64, right: u64| #[trigger]
            self.times_out(timestamp, left) && #[trigger] self.times_out(timestamp, right) ==> left
                == right
        &&& forall|
            blob: Seq<u8>,
            left: Result<Vec<u8>, BlobDecodeError>,
            right: Result<Vec<u8>, BlobDecodeError>,
        | #[trigger]
            self.decodes_blob(blob, left) && #[trigger] self.decodes_blob(blob, right) ==> left
                == right
    }

    /// Splits a payload into frames.
    pub fn parse(&self, payload: &[u8]) -> (result: Result<Vec<Frame>, FrameParseError>)
        requires
            self.total(),
        ensures
            self.parses(payload@, result),
    {
        (self.parse_frames)(payload)
    }

    /// Asks what becomes of a frame that a channel receives.
    pub fn add(&self, channel: &Channel, frame: &Frame, block: &BlockInfo) -> (outcome:
        FrameOutcome)
        requires
            self.total(),
        ensures
            self.adds(channel@, *frame, *block, outcome),
    {
        (self.add_frame)(channel, frame, block)
    }

    /// Decodes a complete channel.
    pub fn normalize(&self, channel: &Channel, timestamp: u64) -> (result: Option<
        NormalizedChannel,
    >)
        requires
            self.total(),
        ensures
            self.normalizes(channel@, timestamp, result),
    {
        (self.normalize_channel)(channel, timestamp)
    }

    /// The channel timeout in force at an L1 timestamp.
    pub fn timeout(&self, timestamp: u64) -> (timeout: u64)
        requires
            self.total(),
        ensures
            self.times_out(timestamp, timeout),
    {
        (self.channel_timeout)(timestamp)
    }

    /// Decodes the payload that a blob carries.
    pub fn decode(&self, blob: &Vec<u8>) -> (result: Result<Vec<u8>, BlobDecodeError>)
        requires
            self.total(),
        ensures
            self.decodes_blob(blob@, result),
    {
        (self.decode_blob)(blob)
    }
}

} // verus!
