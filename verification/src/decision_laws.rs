//! With derivation operations that are functions, what the monitor does is
//! decided by the state and by what it is given.

use crate::channel::{
    BlobDecodeError, BlockInfo, Channel, DerivationCodec, Frame, FrameOutcome, FrameParseError,
    NormalizedChannel,
};
use crate::divergence::Divergence;
use crate::error::ParityError;
use crate::metrics::MetricEvent;
use crate::monitor;
use crate::monitor::{BlockReport, L1Block, L1Transaction, ShadowParityMonitorConfig};
use crate::monitor_laws;
use crate::parity_laws;
use crate::parity_state::{ParitySide, StateView};
use crate::side_state;
use crate::side_state::{IngestedPayload, SideView};
use vstd::prelude::*;

verus! {

proof fn lemma_outcomes_decided<
    P: Fn(&[u8]) -> Result<Vec<Frame>, FrameParseError>,
    A: Fn(&Channel, &Frame, &BlockInfo) -> FrameOutcome,
    N: Fn(&Channel, u64) -> Option<NormalizedChannel>,
    T: Fn(u64) -> u64,
    D: Fn(&Vec<u8>) -> Result<Vec<u8>, BlobDecodeError>,
>(
    codec: DerivationCodec<P, A, N, T, D>,
    side: SideView,
    frames: Seq<Frame>,
    block: BlockInfo,
    left: Seq<FrameOutcome>,
    right: Seq<FrameOutcome>,
    count: int,
)
    requires
        codec.functional(),
        codec.adds_all(side, frames, block, left),
        codec.adds_all(side, frames, block, right),
        0 <= count <= frames.len(),
    ensures
        left.take(count) == right.take(count),
    decreases count,
{
    if count > 0 {
        let i = count - 1;
        lemma_outcomes_decided(codec, side, frames, block, left, right, i);
        let channel = side.after_frames(frames.take(i), block, left.take(i)).channel_for(
            frames[i].id,
            block,
        );
        assert(codec.adds(channel, frames[i], block, left[i]));
        assert(codec.adds(channel, frames[i], block, right[i]));
        assert(left.take(count) =~= left.take(i).push(left[i]));
        assert(right.take(count) =~= right.take(i).push(right[i]));
    }
}

proof fn lemma_results_decided<
    P: Fn(&[u8]) -> Result<Vec<Frame>, FrameParseError>,
    A: Fn(&Channel, &Frame, &BlockInfo) -> FrameOutcome,
    N: Fn(&Channel, u64) -> Option<NormalizedChannel>,
    T: Fn(u64) -> u64,
    D: Fn(&Vec<u8>) -> Result<Vec<u8>, BlobDecodeError>,
>(
    codec: DerivationCodec<P, A, N, T, D>,
    side: SideView,
    timestamp: u64,
    left: Seq<Option<NormalizedChannel>>,
    right: Seq<Option<NormalizedChannel>>,
)
    requires
        codec.functional(),
        side.well_formed(),
        codec.decodes_ready(side, timestamp, left),
        codec.decodes_ready(side, timestamp, right),
    ensures
        left == right,
{
    let ids = side.ready_ids();
    parity_laws::lemma_filter_distinct(
        side.channel_order,
        side_state::is_ready(side.channels),
    );
    assert forall|i: int| 0 <= i < ids.len() implies left[i] == right[i] by {
        if ids.take(i).contains(ids[i]) {
            let k = ids.take(i).index_of(ids[i]);
            assert(ids[k] == ids[i]);
        }
        assert(!ids.take(i).contains(ids[i]));
        assert(codec.normalizes(side.channels[ids[i]], timestamp, left[i]));
        assert(codec.normalizes(side.channels[ids[i]], timestamp, right[i]));
    }
    assert(left =~= right);
}

/// Ingesting a payload has one outcome.
#[verifier::spinoff_prover]
#[verifier::rlimit(40)]
pub proof fn law_ingest_is_decided<
    P: Fn(&[u8]) -> Result<Vec<Frame>, FrameParseError>,
    A: Fn(&Channel, &Frame, &BlockInfo) -> FrameOutcome,
    N: Fn(&Channel, u64) -> Option<NormalizedChannel>,
    T: Fn(u64) -> u64,
    D: Fn(&Vec<u8>) -> Result<Vec<u8>, BlobDecodeError>,
>(
    codec: DerivationCodec<P, A, N, T, D>,
    pre: SideView,
    payload: Seq<u8>,
    block: BlockInfo,
    left: SideView,
    left_result: Result<IngestedPayload, ParityError>,
    left_events: Seq<MetricEvent>,
    right: SideView,
    right_result: Result<IngestedPayload, ParityError>,
    right_events: Seq<MetricEvent>,
)
    requires
        codec.functional(),
        pre.well_formed(),
        codec.ingests(pre, payload, block, left, left_result, left_events),
        codec.ingests(pre, payload, block, right, right_result, right_events),
    ensures
        left == right,
        left_result == right_result,
        left_events == right_events,
{
    match (left_result, right_result) {
        (Ok(left_counts), Ok(right_counts)) => {
            let (left_frames, left_outcomes, left_decoded) = choose|
                frames: Vec<Frame>,
                outcomes: Seq<FrameOutcome>,
                results: Seq<Option<NormalizedChannel>>,
            | #[trigger]
                codec.ingests_via(
                    pre,
                    payload,
                    block,
                    frames,
                    outcomes,
                    results,
                    left,
                    left_counts,
                    left_events,
                );
            let (right_frames, right_outcomes, right_decoded) = choose|
                frames: Vec<Frame>,
                outcomes: Seq<FrameOutcome>,
                results: Seq<Option<NormalizedChannel>>,
            | #[trigger]
                codec.ingests_via(
                    pre,
                    payload,
                    block,
                    frames,
                    outcomes,
                    results,
                    right,
                    right_counts,
                    right_events,
                );
            assert(codec.parses(payload, Ok(left_frames)));
            assert(codec.parses(payload, Ok(right_frames)));
            assert(left_frames == right_frames);
            let frames = left_frames@;
            lemma_outcomes_decided(
                codec,
                pre,
                frames,
                block,
                left_outcomes,
                right_outcomes,
                frames.len() as int,
            );
            assert(left_outcomes.take(frames.len() as int) =~= left_outcomes);
            assert(right_outcomes.take(frames.len() as int) =~= right_outcomes);
            parity_laws::law_frames_keep_side(pre, frames, block, left_outcomes);
            lemma_results_decided(
                codec,
                pre.after_frames(frames, block, left_outcomes),
                block.timestamp,
                left_decoded,
                right_decoded,
            );
        },
        (Ok(left_counts), Err(ParityError::FrameParse(right_error))) => {
            let frames = choose|frames: Vec<Frame>| #[trigger] codec.parses(payload, Ok(frames));
            lemma_parsed(codec, pre, payload, block, left, left_counts, left_events);
            assert(codec.parses(payload, Ok(frames)));
            assert(codec.parses(payload, Err(right_error)));
        },
        (Err(ParityError::FrameParse(left_error)), Ok(right_counts)) => {
            let frames = choose|frames: Vec<Frame>| #[trigger] codec.parses(payload, Ok(frames));
            lemma_parsed(codec, pre, payload, block, right, right_counts, right_events);
            assert(codec.parses(payload, Ok(frames)));
            assert(codec.parses(payload, Err(left_error)));
        },
        (
            Err(ParityError::FrameParse(left_error)),
            Err(ParityError::FrameParse(right_error)),
        ) => {
            assert(codec.parses(payload, Err(left_error)));
            assert(codec.parses(payload, Err(right_error)));
        },
        _ => {},
    }
}

proof fn lemma_parsed<
    P: Fn(&[u8]) -> Result<Vec<Frame>, FrameParseError>,
    A: Fn(&Channel, &Frame, &BlockInfo) -> FrameOutcome,
    N: Fn(&Channel, u64) -> Option<NormalizedChannel>,
    T: Fn(u64) -> u64,
    D: Fn(&Vec<u8>) -> Result<Vec<u8>, BlobDecodeError>,
>(
    codec: DerivationCodec<P, A, N, T, D>,
    pre: SideView,
    payload: Seq<u8>,
    block: BlockInfo,
    post: SideView,
    ingested: IngestedPayload,
    events: Seq<MetricEvent>,
)
    requires
        codec.ingests_frames(pre, payload, block, post, ingested, events),
    ensures
        exists|frames: Vec<Frame>| #[trigger] codec.parses(payload, Ok(frames)),
{
    let (frames, outcomes, results) = choose|
        frames: Vec<Frame>,
        outcomes: Seq<FrameOutcome>,
        results: Seq<Option<NormalizedChannel>>,
    | #[trigger]
        codec.ingests_via(
            pre,
            payload,
            block,
            frames,
            outcomes,
            results,
            post,
            ingested,
            events,
        );
    assert(codec.parses(payload, Ok(frames)));
}

#[verifier::spinoff_prover]
#[verifier::rlimit(40)]
proof fn lemma_payload_decided<
    P: Fn(&[u8]) -> Result<Vec<Frame>, FrameParseError>,
    A: Fn(&Channel, &Frame, &BlockInfo) -> FrameOutcome,
    N: Fn(&Channel, u64) -> Option<NormalizedChannel>,
    T: Fn(u64) -> u64,
    D: Fn(&Vec<u8>) -> Result<Vec<u8>, BlobDecodeError>,
>(
    codec: DerivationCodec<P, A, N, T, D>,
    pre: StateView,
    side: ParitySide,
    payload: Seq<u8>,
    block: BlockInfo,
    left: StateView,
    left_events: Seq<MetricEvent>,
    right: StateView,
    right_events: Seq<MetricEvent>,
)
    requires
        codec.functional(),
        pre.well_formed(),
        codec.takes_payload(pre, side, payload, block, left, left_events),
        codec.takes_payload(pre, side, payload, block, right, right_events),
    ensures
        left == right,
        left_events == right_events,
{
    let (left_result, left_ingested) = choose|
        result: Result<IngestedPayload, ParityError>,
        ingested: Seq<MetricEvent>,
    | #[trigger]
        codec.reports_via(
            pre,
            side,
            payload,
            block,
            left,
            left_events.skip(1),
            result,
            ingested,
        );
    let (right_result, right_ingested) = choose|
        result: Result<IngestedPayload, ParityError>,
        ingested: Seq<MetricEvent>,
    | #[trigger]
        codec.reports_via(
            pre,
            side,
            payload,
            block,
            right,
            right_events.skip(1),
            result,
            ingested,
        );
    law_ingest_is_decided(
        codec,
        pre.side(side),
        payload,
        block,
        left.side(side),
        left_result,
        left_ingested,
        right.side(side),
        right_result,
        right_ingested,
    );
    assert(left_events =~= seq![left_events[0]] + left_events.skip(1));
    assert(right_events =~= seq![right_events[0]] + right_events.skip(1));
}

proof fn lemma_blob_decided<
    P: Fn(&[u8]) -> Result<Vec<Frame>, FrameParseError>,
    A: Fn(&Channel, &Frame, &BlockInfo) -> FrameOutcome,
    N: Fn(&Channel, u64) -> Option<NormalizedChannel>,
    T: Fn(u64) -> u64,
    D: Fn(&Vec<u8>) -> Result<Vec<u8>, BlobDecodeError>,
>(
    codec: DerivationCodec<P, A, N, T, D>,
    pre: StateView,
    side: ParitySide,
    blob: Seq<u8>,
    block: BlockInfo,
    left: StateView,
    left_events: Seq<MetricEvent>,
    right: StateView,
    right_events: Seq<MetricEvent>,
)
    requires
        codec.functional(),
        pre.well_formed(),
        codec.takes_blob(pre, side, blob, block, left, left_events),
        codec.takes_blob(pre, side, blob, block, right, right_events),
    ensures
        left == right,
        left_events == right_events,
{
    let left_decoded = choose|decoded: Result<Vec<u8>, BlobDecodeError>| #[trigger]
        codec.takes_blob_via(pre, side, blob, block, left, left_events, decoded);
    let right_decoded = choose|decoded: Result<Vec<u8>, BlobDecodeError>| #[trigger]
        codec.takes_blob_via(pre, side, blob, block, right, right_events, decoded);
    assert(codec.decodes_blob(blob, left_decoded));
    assert(codec.decodes_blob(blob, right_decoded));
    assert(left_decoded == right_decoded);
    if left_decoded is Ok {
        lemma_payload_decided(
            codec,
            pre,
            side,
            left_decoded->Ok_0@,
            block,
            left,
            left_events,
            right,
            right_events,
        );
    }
}

proof fn lemma_blobs_decided<
    P: Fn(&[u8]) -> Result<Vec<Frame>, FrameParseError>,
    A: Fn(&Channel, &Frame, &BlockInfo) -> FrameOutcome,
    N: Fn(&Channel, u64) -> Option<NormalizedChannel>,
    T: Fn(u64) -> u64,
    D: Fn(&Vec<u8>) -> Result<Vec<u8>, BlobDecodeError>,
>(
    codec: DerivationCodec<P, A, N, T, D>,
    pre: StateView,
    side: ParitySide,
    blobs: Seq<Vec<u8>>,
    block: BlockInfo,
    left: StateView,
    left_events: Seq<MetricEvent>,
    right: StateView,
    right_events: Seq<MetricEvent>,
)
    requires
        codec.functional(),
        pre.well_formed(),
        codec.takes_blobs(pre, side, blobs, block, left, left_events),
        codec.takes_blobs(pre, side, blobs, block, right, right_events),
    ensures
        left == right,
        left_events == right_events,
    decreases blobs.len(),
{
    if blobs.len() > 0 {
        let front = blobs.drop_last();
        let (left_mid, left_earlier, left_last) = choose|
            mid: StateView,
            earlier: Seq<MetricEvent>,
            last: Seq<MetricEvent>,
        |
            {
                &&& codec.takes_blobs(pre, side, front, block, mid, earlier)
                &&& #[trigger] codec.takes_blob(mid, side, blobs.last()@, block, left, last)
                &&& #[trigger] monitor::joined(left_events, earlier, last)
            };
        let (right_mid, right_earlier, right_last) = choose|
            mid: StateView,
            earlier: Seq<MetricEvent>,
            last: Seq<MetricEvent>,
        |
            {
                &&& codec.takes_blobs(pre, side, front, block, mid, earlier)
                &&& #[trigger] codec.takes_blob(mid, side, blobs.last()@, block, right, last)
                &&& #[trigger] monitor::joined(right_events, earlier, last)
            };
        lemma_blobs_decided(
            codec,
            pre,
            side,
            front,
            block,
            left_mid,
            left_earlier,
            right_mid,
            right_earlier,
        );
        monitor_laws::lemma_blobs_keep_state(
            codec,
            pre,
            side,
            front,
            block,
            left_mid,
            left_earlier,
        );
        lemma_blob_decided(
            codec,
            left_mid,
            side,
            blobs.last()@,
            block,
            left,
            left_last,
            right,
            right_last,
        );
    }
}

/// Processing an inbox transaction has one outcome.
pub proof fn law_transaction_is_decided<
    P: Fn(&[u8]) -> Result<Vec<Frame>, FrameParseError>,
    A: Fn(&Channel, &Frame, &BlockInfo) -> FrameOutcome,
    N: Fn(&Channel, u64) -> Option<NormalizedChannel>,
    T: Fn(u64) -> u64,
    D: Fn(&Vec<u8>) -> Result<Vec<u8>, BlobDecodeError>,
>(
    codec: DerivationCodec<P, A, N, T, D>,
    pre: StateView,
    side: ParitySide,
    tx: L1Transaction,
    block: BlockInfo,
    left: StateView,
    left_events: Seq<MetricEvent>,
    right: StateView,
    right_events: Seq<MetricEvent>,
)
    requires
        codec.functional(),
        pre.well_formed(),
        codec.takes_transaction(pre, side, tx, block, left, left_events),
        codec.takes_transaction(pre, side, tx, block, right, right_events),
    ensures
        left == right,
        left_events == right_events,
{
    if tx.blob_count() == 0 {
        if tx.input@.len() > 0 {
            lemma_payload_decided(
                codec,
                pre,
                side,
                tx.input@,
                block,
                left,
                left_events,
                right,
                right_events,
            );
        }
    } else if tx.blobs is Fetched {
        lemma_blobs_decided(
            codec,
            pre,
            side,
            tx.blobs->Fetched_0@,
            block,
            left,
            left_events,
            right,
            right_events,
        );
    }
}

proof fn lemma_transactions_decided<
    P: Fn(&[u8]) -> Result<Vec<Frame>, FrameParseError>,
    A: Fn(&Channel, &Frame, &BlockInfo) -> FrameOutcome,
    N: Fn(&Channel, u64) -> Option<NormalizedChannel>,
    T: Fn(u64) -> u64,
    D: Fn(&Vec<u8>) -> Result<Vec<u8>, BlobDecodeError>,
>(
    codec: DerivationCodec<P, A, N, T, D>,
    config: ShadowParityMonitorConfig,
    pre: StateView,
    txs: Seq<L1Transaction>,
    block: BlockInfo,
    left: StateView,
    left_events: Seq<MetricEvent>,
    right: StateView,
    right_events: Seq<MetricEvent>,
)
    requires
        codec.functional(),
        pre.well_formed(),
        codec.sees_transactions(config, pre, txs, block, left, left_events),
        codec.sees_transactions(config, pre, txs, block, right, right_events),
    ensures
        left == right,
        left_events == right_events,
    decreases txs.len(),
{
    if txs.len() > 0 {
        let front = txs.drop_last();
        let (left_mid, left_earlier, left_last) = choose|
            mid: StateView,
            earlier: Seq<MetricEvent>,
            last: Seq<MetricEvent>,
        |
            {
                &&& codec.sees_transactions(config, pre, front, block, mid, earlier)
                &&& #[trigger] codec.sees_transaction(config, mid, txs.last(), block, left, last)
                &&& #[trigger] monitor::joined(left_events, earlier, last)
            };
        let (right_mid, right_earlier, right_last) = choose|
            mid: StateView,
            earlier: Seq<MetricEvent>,
            last: Seq<MetricEvent>,
        |
            {
                &&& codec.sees_transactions(config, pre, front, block, mid, earlier)
                &&& #[trigger] codec.sees_transaction(config, mid, txs.last(), block, right, last)
                &&& #[trigger] monitor::joined(right_events, earlier, last)
            };
        lemma_transactions_decided(
            codec,
            config,
            pre,
            front,
            block,
            left_mid,
            left_earlier,
            right_mid,
            right_earlier,
        );
        monitor_laws::lemma_transactions_keep_state(
            codec,
            config,
            pre,
            front,
            block,
            left_mid,
            left_earlier,
        );
        match monitor::inbox_side(config, txs.last().to) {
            Some(side) => {
                law_transaction_is_decided(
                    codec,
                    left_mid,
                    side,
                    txs.last(),
                    block,
                    left,
                    left_last,
                    right,
                    right_last,
                );
            },
            None => {},
        }
    }
}

proof fn lemma_eviction_decided<
    P: Fn(&[u8]) -> Result<Vec<Frame>, FrameParseError>,
    A: Fn(&Channel, &Frame, &BlockInfo) -> FrameOutcome,
    N: Fn(&Channel, u64) -> Option<NormalizedChannel>,
    T: Fn(u64) -> u64,
    D: Fn(&Vec<u8>) -> Result<Vec<u8>, BlobDecodeError>,
>(
    codec: DerivationCodec<P, A, N, T, D>,
    pre: StateView,
    l1_block: u64,
    l1_timestamp: u64,
    left: StateView,
    left_evicted: usize,
    right: StateView,
    right_evicted: usize,
)
    requires
        codec.functional(),
        codec.evicts(pre, l1_block, l1_timestamp, left, left_evicted),
        codec.evicts(pre, l1_block, l1_timestamp, right, right_evicted),
    ensures
        left == right,
        left_evicted == right_evicted,
{
    let (left_canonical, left_shadow) = choose|canonical: u64, shadow: u64|
        {
            &&& #[trigger] codec.times_out(l1_timestamp, canonical)
            &&& #[trigger] codec.times_out(l1_timestamp, shadow)
            &&& left_evicted == pre.expired_count(l1_block, canonical, shadow)
            &&& left == pre.without_expired(l1_block, canonical, shadow)
        };
    let (right_canonical, right_shadow) = choose|canonical: u64, shadow: u64|
        {
            &&& #[trigger] codec.times_out(l1_timestamp, canonical)
            &&& #[trigger] codec.times_out(l1_timestamp, shadow)
            &&& right_evicted == pre.expired_count(l1_block, canonical, shadow)
            &&& right == pre.without_expired(l1_block, canonical, shadow)
        };
    assert(left_canonical == right_canonical);
    assert(left_shadow == right_shadow);
}

/// Only the receiver of a transaction decides whether and for which side it
/// counts. Blocks with equal headers and the same inbox transactions, processed
/// from one state, lead to the same state, the same report, the same metric
/// updates and the same divergences, whatever other transactions they hold and
/// whoever sent them.
pub proof fn law_inbox_transactions_decide<
    P: Fn(&[u8]) -> Result<Vec<Frame>, FrameParseError>,
    A: Fn(&Channel, &Frame, &BlockInfo) -> FrameOutcome,
    N: Fn(&Channel, u64) -> Option<NormalizedChannel>,
    T: Fn(u64) -> u64,
    D: Fn(&Vec<u8>) -> Result<Vec<u8>, BlobDecodeError>,
>(
    codec: DerivationCodec<P, A, N, T, D>,
    config: ShadowParityMonitorConfig,
    pre: StateView,
    block_number: u64,
    left_block: L1Block,
    right_block: L1Block,
    left: StateView,
    left_report: BlockReport,
    left_events: Seq<MetricEvent>,
    left_divergences: Seq<Divergence>,
    right: StateView,
    right_report: BlockReport,
    right_events: Seq<MetricEvent>,
    right_divergences: Seq<Divergence>,
)
    requires
        codec.functional(),
        pre.well_formed(),
        left_block.info() == right_block.info(),
        monitor_laws::inbox_transactions(config, left_block.transactions@)
            == monitor_laws::inbox_transactions(config, right_block.transactions@),
        codec.processes(
            config,
            pre,
            block_number,
            left_block,
            left,
            left_report,
            left_events,
            left_divergences,
        ),
        codec.processes(
            config,
            pre,
            block_number,
            right_block,
            right,
            right_report,
            right_events,
            right_divergences,
        ),
    ensures
        left == right,
        left_report == right_report,
        left_events == right_events,
        left_divergences == right_divergences,
{
    let info = left_block.info();
    let (left_seen, left_seen_events, left_kept) = choose|
        seen: StateView,
        seen_events: Seq<MetricEvent>,
        kept: StateView,
    | #[trigger]
        codec.processes_via(
            config,
            pre,
            block_number,
            left_block,
            left,
            left_report,
            left_events,
            left_divergences,
            seen,
            seen_events,
            kept,
        );
    let (right_seen, right_seen_events, right_kept) = choose|
        seen: StateView,
        seen_events: Seq<MetricEvent>,
        kept: StateView,
    | #[trigger]
        codec.processes_via(
            config,
            pre,
            block_number,
            right_block,
            right,
            right_report,
            right_events,
            right_divergences,
            seen,
            seen_events,
            kept,
        );
    monitor_laws::law_only_inbox_transactions_matter(
        codec,
        config,
        pre,
        left_block.transactions@,
        info,
        left_seen,
        left_seen_events,
    );
    monitor_laws::law_only_inbox_transactions_matter(
        codec,
        config,
        pre,
        right_block.transactions@,
        info,
        right_seen,
        right_seen_events,
    );
    lemma_transactions_decided(
        codec,
        config,
        pre,
        monitor_laws::inbox_transactions(config, left_block.transactions@),
        info,
        left_seen,
        left_seen_events,
        right_seen,
        right_seen_events,
    );
    lemma_eviction_decided(
        codec,
        left_seen,
        info.number,
        info.timestamp,
        left_kept,
        left_report.evicted_channels,
        right_kept,
        right_report.evicted_channels,
    );
}

} // verus!
