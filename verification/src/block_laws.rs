//! Laws of what the monitor does with an L1 block and its transactions.

use crate::channel::{
    BlobDecodeError, BlockInfo, Channel, ChannelId, DerivationCodec, Frame, FrameOutcome,
    FrameParseError, NormalizedChannel,
};
use crate::divergence::Divergence;
use crate::error::ParityError;
use crate::ingest_laws;
use crate::l2_queue;
use crate::metrics::{Counter, Gauge, MetricEvent};
use crate::monitor;
use crate::monitor::{BlobReply, BlockReport, L1Block, L1Transaction, ShadowParityMonitorConfig};
use crate::normalized::Address;
use crate::parity_laws;
use crate::parity_state::{ParitySide, StateView};
use crate::report_laws;
use crate::report_laws::{gained, latest, left_on};
use crate::side_state::{IngestedPayload, SideView};
use vstd::prelude::*;

verus! {

/// A transaction counts for the canonical side exactly if it goes to the
/// canonical inbox, and for the shadow side exactly if it goes to the shadow
/// inbox and that is another address. It counts for none where it goes elsewhere
/// or creates a contract.
pub proof fn law_inbox_is_told_by_address(config: ShadowParityMonitorConfig, to: Option<Address>)
    ensures
        monitor::inbox_side(config, to) == Some(ParitySide::Canonical) <==> to == Some(
            config.canonical_inbox,
        ),
        monitor::inbox_side(config, to) == Some(ParitySide::Shadow) <==> to == Some(
            config.shadow_inbox,
        ) && config.shadow_inbox != config.canonical_inbox,
        monitor::inbox_side(config, to) is None <==> to != Some(config.canonical_inbox) && to
            != Some(config.shadow_inbox),
{
}

/// Derivation sees the hash, the number, the parent hash and the timestamp of
/// the block itself.
pub proof fn law_derivation_sees_the_header(block: L1Block)
    ensures
        block.info().hash == block.hash,
        block.info().number == block.number,
        block.info().parent_hash == block.parent_hash,
        block.info().timestamp == block.timestamp,
{
}

/// A payload that is taken adds one to the payload counter of its side and is
/// ingested into that side, in that block. What ingesting it reports follows.
/// The other side and the results of comparisons stay as they are.
pub proof fn law_payload_is_counted_and_ingested<
    P: Fn(&[u8]) -> Result<Vec<Frame>, FrameParseError>,
    A: Fn(&Channel, &Frame, &BlockInfo) -> FrameOutcome,
    N: Fn(&Channel, u64) -> Option<NormalizedChannel>,
    T: Fn(u64) -> u64,
    D: Fn(&Vec<u8>) -> Result<Vec<u8>, BlobDecodeError>,
>(
    codec: DerivationCodec<P, A, N, T, D>,
    pre: StateView,
    side: ParitySide,
    payload: Seq<u8>,
    block: BlockInfo,
    post: StateView,
    events: Seq<MetricEvent>,
) -> (taken: (Result<IngestedPayload, ParityError>, Seq<MetricEvent>))
    requires
        codec.takes_payload(pre, side, payload, block, post, events),
    ensures
        side == ParitySide::Canonical ==> {
            &&& codec.ingests(pre.canonical, payload, block, post.canonical, taken.0, taken.1)
            &&& post.shadow == pre.shadow
            &&& events[0] == MetricEvent::Increment(Counter::CanonicalPayloads, 1)
        },
        side == ParitySide::Shadow ==> {
            &&& codec.ingests(pre.shadow, payload, block, post.shadow, taken.0, taken.1)
            &&& post.canonical == pre.canonical
            &&& events[0] == MetricEvent::Increment(Counter::ShadowPayloads, 1)
        },
        events.len() == 1 + taken.1.len() + monitor::ingest_report(side, taken.0).len(),
        events.skip(1) == taken.1 + monitor::ingest_report(side, taken.0),
        post.last_result == pre.last_result,
        post.last_l2_result == pre.last_l2_result,
        post.last_reported_pending_drift == pre.last_reported_pending_drift,
{
    let reported = events.skip(1);
    choose|
        result: Result<IngestedPayload, ParityError>,
        ingested: Seq<MetricEvent>,
    | #[trigger]
        codec.reports_via(pre, side, payload, block, post, reported, result, ingested)
}

/// A transaction without blobs is taken by its calldata, which is ignored where
/// it is empty.
pub proof fn law_transaction_without_blobs_is_calldata<
    P: Fn(&[u8]) -> Result<Vec<Frame>, FrameParseError>,
    A: Fn(&Channel, &Frame, &BlockInfo) -> FrameOutcome,
    N: Fn(&Channel, u64) -> Option<NormalizedChannel>,
    T: Fn(u64) -> u64,
    D: Fn(&Vec<u8>) -> Result<Vec<u8>, BlobDecodeError>,
>(
    codec: DerivationCodec<P, A, N, T, D>,
    pre: StateView,
    side: ParitySide,
    tx: L1Transaction,
    block: BlockInfo,
    post: StateView,
    events: Seq<MetricEvent>,
)
    requires
        codec.takes_transaction(pre, side, tx, block, post, events),
        tx.blob_versioned_hashes is None || tx.blob_versioned_hashes->0@.len() == 0,
    ensures
        tx.input@.len() == 0 ==> post == pre && events.len() == 0,
        tx.input@.len() > 0 ==> codec.takes_payload(pre, side, tx.input@, block, post, events),
{
}

/// A transaction with blobs is taken by its blobs and never by its calldata.
/// Without a beacon every blob is counted as missed; a failed fetch is counted
/// once. In both cases nothing changes.
pub proof fn law_transaction_with_blobs_ignores_calldata<
    P: Fn(&[u8]) -> Result<Vec<Frame>, FrameParseError>,
    A: Fn(&Channel, &Frame, &BlockInfo) -> FrameOutcome,
    N: Fn(&Channel, u64) -> Option<NormalizedChannel>,
    T: Fn(u64) -> u64,
    D: Fn(&Vec<u8>) -> Result<Vec<u8>, BlobDecodeError>,
>(
    codec: DerivationCodec<P, A, N, T, D>,
    pre: StateView,
    side: ParitySide,
    tx: L1Transaction,
    block: BlockInfo,
    post: StateView,
    events: Seq<MetricEvent>,
)
    requires
        codec.takes_transaction(pre, side, tx, block, post, events),
        tx.blob_versioned_hashes is Some,
        0 < tx.blob_versioned_hashes->0@.len() <= u64::MAX,
    ensures
        match tx.blobs {
            BlobReply::NoProvider => {
                &&& post == pre
                &&& events.len() == 1
                &&& events[0] matches MetricEvent::Increment(Counter::MissingBeacon, missed)
                &&& missed == tx.blob_versioned_hashes->0@.len()
            },
            BlobReply::Failed => {
                &&& post == pre
                &&& events.len() == 1
                &&& events[0] == MetricEvent::Increment(Counter::BlobFetchErrors, 1)
            },
            BlobReply::Fetched(blobs) => codec.takes_blobs(
                pre,
                side,
                blobs@,
                block,
                post,
                events,
            ),
        },
{
}

/// Blobs are taken one after the other, the last one after all others.
pub proof fn law_blobs_are_taken_in_order<
    P: Fn(&[u8]) -> Result<Vec<Frame>, FrameParseError>,
    A: Fn(&Channel, &Frame, &BlockInfo) -> FrameOutcome,
    N: Fn(&Channel, u64) -> Option<NormalizedChannel>,
    T: Fn(u64) -> u64,
    D: Fn(&Vec<u8>) -> Result<Vec<u8>, BlobDecodeError>,
>(
    codec: DerivationCodec<P, A, N, T, D>,
    pre: StateView,
    side: ParitySide,
    blobs: Seq<Vec<u8>>,
    last_blob: Vec<u8>,
    block: BlockInfo,
    post: StateView,
    events: Seq<MetricEvent>,
) -> (middle: (StateView, Seq<MetricEvent>, Seq<MetricEvent>))
    requires
        codec.takes_blobs(pre, side, blobs.push(last_blob), block, post, events),
    ensures
        codec.takes_blobs(pre, side, blobs, block, middle.0, middle.1),
        codec.takes_blob(middle.0, side, last_blob@, block, post, middle.2),
        events == middle.1 + middle.2,
{
    let all = blobs.push(last_blob);
    assert(all.drop_last() =~= blobs);
    let (mid, earlier, last) = choose|
        mid: StateView,
        earlier: Seq<MetricEvent>,
        last: Seq<MetricEvent>,
    |
        {
            &&& codec.takes_blobs(pre, side, all.drop_last(), block, mid, earlier)
            &&& #[trigger] codec.takes_blob(mid, side, all.last()@, block, post, last)
            &&& #[trigger] monitor::joined(events, earlier, last)
        };
    (mid, earlier, last)
}

/// A blob is decoded by the derivation. What it decodes to is taken as a
/// payload, even where that is empty; a blob that does not decode changes
/// nothing and adds one extraction error.
pub proof fn law_blob_is_decoded_and_taken<
    P: Fn(&[u8]) -> Result<Vec<Frame>, FrameParseError>,
    A: Fn(&Channel, &Frame, &BlockInfo) -> FrameOutcome,
    N: Fn(&Channel, u64) -> Option<NormalizedChannel>,
    T: Fn(u64) -> u64,
    D: Fn(&Vec<u8>) -> Result<Vec<u8>, BlobDecodeError>,
>(
    codec: DerivationCodec<P, A, N, T, D>,
    pre: StateView,
    side: ParitySide,
    blob: Seq<u8>,
    block: BlockInfo,
    post: StateView,
    events: Seq<MetricEvent>,
) -> (decoded: Result<Vec<u8>, BlobDecodeError>)
    requires
        codec.takes_blob(pre, side, blob, block, post, events),
    ensures
        exists|bytes: Vec<u8>|
            bytes@ == blob && #[trigger] call_ensures(codec.decode_blob, (&bytes,), decoded),
        decoded is Ok ==> codec.takes_payload(pre, side, decoded->Ok_0@, block, post, events),
        decoded is Err ==> post == pre && events.len() == 1 && events[0]
            == MetricEvent::Increment(Counter::ExtractionErrors, 1),
{
    choose|decoded: Result<Vec<u8>, BlobDecodeError>| #[trigger]
        codec.takes_blob_via(pre, side, blob, block, post, events, decoded)
}

/// The transactions of a block are looked at one after the other, the last one
/// after all others.
pub proof fn law_transactions_are_seen_in_order<
    P: Fn(&[u8]) -> Result<Vec<Frame>, FrameParseError>,
    A: Fn(&Channel, &Frame, &BlockInfo) -> FrameOutcome,
    N: Fn(&Channel, u64) -> Option<NormalizedChannel>,
    T: Fn(u64) -> u64,
    D: Fn(&Vec<u8>) -> Result<Vec<u8>, BlobDecodeError>,
>(
    codec: DerivationCodec<P, A, N, T, D>,
    config: ShadowParityMonitorConfig,
    pre: StateView,
    txs: Seq<L1Transaction>,
    last_tx: L1Transaction,
    block: BlockInfo,
    post: StateView,
    events: Seq<MetricEvent>,
) -> (middle: (StateView, Seq<MetricEvent>, Seq<MetricEvent>))
    requires
        codec.sees_transactions(config, pre, txs.push(last_tx), block, post, events),
    ensures
        codec.sees_transactions(config, pre, txs, block, middle.0, middle.1),
        last_tx.to == Some(config.canonical_inbox) ==> codec.takes_transaction(
            middle.0,
            ParitySide::Canonical,
            last_tx,
            block,
            post,
            middle.2,
        ),
        last_tx.to == Some(config.shadow_inbox) && config.shadow_inbox != config.canonical_inbox
            ==> codec.takes_transaction(
            middle.0,
            ParitySide::Shadow,
            last_tx,
            block,
            post,
            middle.2,
        ),
        last_tx.to != Some(config.canonical_inbox) && last_tx.to != Some(config.shadow_inbox)
            ==> post == middle.0 && middle.2.len() == 0,
        events == middle.1 + middle.2,
{
    let all = txs.push(last_tx);
    assert(all.drop_last() =~= txs);
    let (mid, earlier, last) = choose|
        mid: StateView,
        earlier: Seq<MetricEvent>,
        last: Seq<MetricEvent>,
    |
        {
            &&& codec.sees_transactions(config, pre, all.drop_last(), block, mid, earlier)
            &&& #[trigger] codec.sees_transaction(config, mid, all.last(), block, post, last)
            &&& #[trigger] monitor::joined(events, earlier, last)
        };
    (mid, earlier, last)
}

/// Every channel of a side has the opening block that it had before, or the
/// given one.
pub open spec fn keeps_opening_blocks(pre: SideView, post: SideView, block: BlockInfo) -> bool {
    forall|id: ChannelId| #[trigger]
        post.channels.contains_key(id) ==> post.channels[id].open_block == block || (
        pre.channels.contains_key(id) && post.channels[id].open_block
            == pre.channels[id].open_block)
}

/// What waited on a side still waits, in front of everything that came.
pub open spec fn keeps_queue(pre: SideView, post: SideView) -> bool {
    pre.batches.len() <= post.batches.len() && post.batches.take(pre.batches.len() as int)
        == pre.batches
}

/// Both sides keep opening blocks and queues, and the results of comparisons
/// stay.
pub open spec fn grows_by(pre: StateView, post: StateView, block: BlockInfo) -> bool {
    &&& keeps_opening_blocks(pre.canonical, post.canonical, block)
    &&& keeps_opening_blocks(pre.shadow, post.shadow, block)
    &&& keeps_queue(pre.canonical, post.canonical)
    &&& keeps_queue(pre.shadow, post.shadow)
    &&& post.last_result == pre.last_result
    &&& post.last_l2_result == pre.last_l2_result
    &&& post.last_reported_pending_drift == pre.last_reported_pending_drift
    &&& post.well_formed()
}

proof fn lemma_grows_by_nothing(state: StateView, block: BlockInfo)
    requires
        state.well_formed(),
    ensures
        grows_by(state, state, block),
{
    assert(state.canonical.batches.take(state.canonical.batches.len() as int)
        =~= state.canonical.batches);
    assert(state.shadow.batches.take(state.shadow.batches.len() as int) =~= state.shadow.batches);
}

proof fn lemma_grows_twice(pre: StateView, mid: StateView, post: StateView, block: BlockInfo)
    requires
        grows_by(pre, mid, block),
        grows_by(mid, post, block),
    ensures
        grows_by(pre, post, block),
{
    lemma_side_grows_twice(pre.canonical, mid.canonical, post.canonical, block);
    lemma_side_grows_twice(pre.shadow, mid.shadow, post.shadow, block);
}

proof fn lemma_side_grows_twice(pre: SideView, mid: SideView, post: SideView, block: BlockInfo)
    requires
        keeps_opening_blocks(pre, mid, block),
        keeps_opening_blocks(mid, post, block),
        keeps_queue(pre, mid),
        keeps_queue(mid, post),
    ensures
        keeps_opening_blocks(pre, post, block),
        keeps_queue(pre, post),
{
    assert forall|id: ChannelId| #[trigger] post.channels.contains_key(id) implies
        post.channels[id].open_block == block || (pre.channels.contains_key(id)
        && post.channels[id].open_block == pre.channels[id].open_block) by {
        if post.channels[id].open_block != block {
            assert(mid.channels.contains_key(id));
        }
    }
    let count = pre.batches.len() as int;
    assert(post.batches.take(count) =~= mid.batches.take(count)) by {
        assert forall|i: int| 0 <= i < count implies post.batches[i] == mid.batches[i] by {
            assert(post.batches.take(mid.batches.len() as int)[i] == mid.batches[i]);
        }
    }
}

/// The counter belongs to what transactions report.
pub open spec fn counts_submissions(counter: Counter) -> bool {
    match counter {
        Counter::CanonicalPayloads => true,
        Counter::ShadowPayloads => true,
        Counter::CanonicalCompleteChannels => true,
        Counter::ShadowCompleteChannels => true,
        Counter::CanonicalBatches => true,
        Counter::ShadowBatches => true,
        Counter::CanonicalL2Blocks => true,
        Counter::ShadowL2Blocks => true,
        Counter::ExtractionErrors => true,
        Counter::BlobFetchErrors => true,
        Counter::MissingBeacon => true,
        _ => false,
    }
}

/// Updates of submissions: only their counters gain, and no gauge is set.
pub open spec fn only_submissions(updates: Seq<MetricEvent>) -> bool {
    forall|i: int|
        0 <= i < updates.len() ==> (#[trigger] updates[i] matches MetricEvent::Increment(
            counter,
            amount,
        ) && counts_submissions(counter))
}

proof fn lemma_submissions_only(updates: Seq<MetricEvent>, counter: Counter, gauge: Gauge)
    requires
        only_submissions(updates),
        !counts_submissions(counter),
    ensures
        gained(updates, counter) == 0,
        left_on(updates, gauge) is None,
    decreases updates.len(),
{
    if updates.len() > 0 {
        let front = updates.drop_last();
        assert forall|i: int| 0 <= i < front.len() implies (
        #[trigger] front[i] matches MetricEvent::Increment(named, amount) && counts_submissions(
            named,
        )) by {
            assert(front[i] == updates[i]);
        }
        lemma_submissions_only(front, counter, gauge);
        assert(updates[updates.len() - 1] == updates.last());
    }
}

proof fn lemma_only_submissions_join(
    updates: Seq<MetricEvent>,
    left: Seq<MetricEvent>,
    right: Seq<MetricEvent>,
)
    requires
        updates == left + right,
        only_submissions(left),
        only_submissions(right),
    ensures
        only_submissions(updates),
{
    assert forall|i: int| 0 <= i < updates.len() implies (
    #[trigger] updates[i] matches MetricEvent::Increment(named, amount) && counts_submissions(
        named,
    )) by {
        if i < left.len() {
            assert(updates[i] == left[i]);
        } else {
            assert(updates[i] == right[i - left.len()]);
        }
    }
}

proof fn lemma_ingested_side_grows<
    P: Fn(&[u8]) -> Result<Vec<Frame>, FrameParseError>,
    A: Fn(&Channel, &Frame, &BlockInfo) -> FrameOutcome,
    N: Fn(&Channel, u64) -> Option<NormalizedChannel>,
    T: Fn(u64) -> u64,
    D: Fn(&Vec<u8>) -> Result<Vec<u8>, BlobDecodeError>,
>(
    codec: DerivationCodec<P, A, N, T, D>,
    pre: SideView,
    payload: Seq<u8>,
    block: BlockInfo,
    post: SideView,
    result: Result<IngestedPayload, ParityError>,
    events: Seq<MetricEvent>,
)
    requires
        pre.well_formed(),
        codec.ingests(pre, payload, block, post, result, events),
    ensures
        keeps_opening_blocks(pre, post, block),
        keeps_queue(pre, post),
        post.well_formed(),
{
    parity_laws::law_ingest_keeps_side(codec, pre, payload, block, post, result, events);
    assert forall|id: ChannelId| #[trigger] post.channels.contains_key(id) implies
        post.channels[id].open_block == block || (pre.channels.contains_key(id)
        && post.channels[id].open_block == pre.channels[id].open_block) by {
        ingest_laws::law_payload_keeps_opening_blocks(
            codec,
            pre,
            payload,
            block,
            post,
            result,
            events,
            id,
        );
    }
    ingest_laws::law_payload_keeps_opening_blocks(
        codec,
        pre,
        payload,
        block,
        post,
        result,
        events,
        0,
    );
}

proof fn lemma_ingested_updates<
    P: Fn(&[u8]) -> Result<Vec<Frame>, FrameParseError>,
    A: Fn(&Channel, &Frame, &BlockInfo) -> FrameOutcome,
    N: Fn(&Channel, u64) -> Option<NormalizedChannel>,
    T: Fn(u64) -> u64,
    D: Fn(&Vec<u8>) -> Result<Vec<u8>, BlobDecodeError>,
>(
    codec: DerivationCodec<P, A, N, T, D>,
    pre: SideView,
    payload: Seq<u8>,
    block: BlockInfo,
    post: SideView,
    result: Result<IngestedPayload, ParityError>,
    events: Seq<MetricEvent>,
)
    requires
        pre.well_formed(),
        codec.ingests(pre, payload, block, post, result, events),
    ensures
        only_submissions(events),
{
    match result {
        Ok(counts) => {
            let trace = ingest_laws::law_ingest_rests_on_the_derivation(
                codec,
                pre,
                payload,
                block,
                post,
                counts,
                events,
            );
        },
        Err(error) => {
            ingest_laws::law_unparsable_payload_changes_nothing(
                codec,
                pre,
                payload,
                block,
                post,
                error,
                events,
            );
        },
    }
}

#[verifier::spinoff_prover]
#[verifier::rlimit(40)]
proof fn lemma_payload_grows<
    P: Fn(&[u8]) -> Result<Vec<Frame>, FrameParseError>,
    A: Fn(&Channel, &Frame, &BlockInfo) -> FrameOutcome,
    N: Fn(&Channel, u64) -> Option<NormalizedChannel>,
    T: Fn(u64) -> u64,
    D: Fn(&Vec<u8>) -> Result<Vec<u8>, BlobDecodeError>,
>(
    codec: DerivationCodec<P, A, N, T, D>,
    pre: StateView,
    side: ParitySide,
    payload: Seq<u8>,
    block: BlockInfo,
    post: StateView,
    events: Seq<MetricEvent>,
)
    requires
        pre.well_formed(),
        codec.takes_payload(pre, side, payload, block, post, events),
    ensures
        grows_by(pre, post, block),
        only_submissions(events),
{
    let (result, ingested) = law_payload_is_counted_and_ingested(
        codec,
        pre,
        side,
        payload,
        block,
        post,
        events,
    );
    let before = pre.side(side);
    let after = post.side(side);
    lemma_grows_by_nothing(pre, block);
    lemma_ingested_side_grows(codec, before, payload, block, after, result, ingested);
    lemma_ingested_updates(codec, before, payload, block, after, result, ingested);
    let report = monitor::ingest_report(side, result);
    assert(only_submissions(report));
    assert(only_submissions(seq![events[0]]));
    lemma_only_submissions_join(events.skip(1), ingested, report);
    assert(events =~= seq![events[0]] + events.skip(1));
    lemma_only_submissions_join(events, seq![events[0]], events.skip(1));
}

proof fn lemma_blobs_grow<
    P: Fn(&[u8]) -> Result<Vec<Frame>, FrameParseError>,
    A: Fn(&Channel, &Frame, &BlockInfo) -> FrameOutcome,
    N: Fn(&Channel, u64) -> Option<NormalizedChannel>,
    T: Fn(u64) -> u64,
    D: Fn(&Vec<u8>) -> Result<Vec<u8>, BlobDecodeError>,
>(
    codec: DerivationCodec<P, A, N, T, D>,
    pre: StateView,
    side: ParitySide,
    blobs: Seq<Vec<u8>>,
    block: BlockInfo,
    post: StateView,
    events: Seq<MetricEvent>,
)
    requires
        pre.well_formed(),
        codec.takes_blobs(pre, side, blobs, block, post, events),
    ensures
        grows_by(pre, post, block),
        only_submissions(events),
    decreases blobs.len(),
{
    if blobs.len() == 0 {
        lemma_grows_by_nothing(pre, block);
    } else {
        assert(blobs =~= blobs.drop_last().push(blobs.last()));
        let (mid, earlier, last) = law_blobs_are_taken_in_order(
            codec,
            pre,
            side,
            blobs.drop_last(),
            blobs.last(),
            block,
            post,
            events,
        );
        lemma_blobs_grow(codec, pre, side, blobs.drop_last(), block, mid, earlier);
        let decoded = law_blob_is_decoded_and_taken(
            codec,
            mid,
            side,
            blobs.last()@,
            block,
            post,
            last,
        );
        if decoded is Ok {
            lemma_payload_grows(codec, mid, side, decoded->Ok_0@, block, post, last);
        } else {
            lemma_grows_by_nothing(mid, block);
        }
        lemma_grows_twice(pre, mid, post, block);
        lemma_only_submissions_join(events, earlier, last);
    }
}

proof fn lemma_transaction_grows<
    P: Fn(&[u8]) -> Result<Vec<Frame>, FrameParseError>,
    A: Fn(&Channel, &Frame, &BlockInfo) -> FrameOutcome,
    N: Fn(&Channel, u64) -> Option<NormalizedChannel>,
    T: Fn(u64) -> u64,
    D: Fn(&Vec<u8>) -> Result<Vec<u8>, BlobDecodeError>,
>(
    codec: DerivationCodec<P, A, N, T, D>,
    pre: StateView,
    side: ParitySide,
    tx: L1Transaction,
    block: BlockInfo,
    post: StateView,
    events: Seq<MetricEvent>,
)
    requires
        pre.well_formed(),
        codec.takes_transaction(pre, side, tx, block, post, events),
    ensures
        grows_by(pre, post, block),
        only_submissions(events),
{
    lemma_grows_by_nothing(pre, block);
    if tx.blob_count() == 0 {
        if tx.input@.len() > 0 {
            lemma_payload_grows(codec, pre, side, tx.input@, block, post, events);
        }
    } else if tx.blobs is Fetched {
        lemma_blobs_grow(codec, pre, side, tx.blobs->Fetched_0@, block, post, events);
    }
}

/// Whatever the transactions of a block hold, they never change the opening
/// block of a channel: it stays what it was, and a channel that they open has
/// that block. What waited keeps its place in front, and no comparison result
/// changes. Only the counters of submissions gain, and no gauge is set.
pub proof fn law_transactions_only_add<
    P: Fn(&[u8]) -> Result<Vec<Frame>, FrameParseError>,
    A: Fn(&Channel, &Frame, &BlockInfo) -> FrameOutcome,
    N: Fn(&Channel, u64) -> Option<NormalizedChannel>,
    T: Fn(u64) -> u64,
    D: Fn(&Vec<u8>) -> Result<Vec<u8>, BlobDecodeError>,
>(
    codec: DerivationCodec<P, A, N, T, D>,
    config: ShadowParityMonitorConfig,
    pre: StateView,
    txs: Seq<L1Transaction>,
    block: BlockInfo,
    post: StateView,
    events: Seq<MetricEvent>,
)
    requires
        pre.well_formed(),
        codec.sees_transactions(config, pre, txs, block, post, events),
    ensures
        grows_by(pre, post, block),
        only_submissions(events),
    decreases txs.len(),
{
    if txs.len() == 0 {
        lemma_grows_by_nothing(pre, block);
    } else {
        assert(txs =~= txs.drop_last().push(txs.last()));
        let (mid, earlier, last) = choose|
            mid: StateView,
            earlier: Seq<MetricEvent>,
            last: Seq<MetricEvent>,
        |
            {
                &&& codec.sees_transactions(config, pre, txs.drop_last(), block, mid, earlier)
                &&& #[trigger] codec.sees_transaction(config, mid, txs.last(), block, post, last)
                &&& #[trigger] monitor::joined(events, earlier, last)
            };
        law_transactions_only_add(codec, config, pre, txs.drop_last(), block, mid, earlier);
        match monitor::inbox_side(config, txs.last().to) {
            Some(side) => {
                lemma_transaction_grows(codec, mid, side, txs.last(), block, post, last);
            },
            None => {
                lemma_grows_by_nothing(mid, block);
            },
        }
        lemma_grows_twice(pre, mid, post, block);
        lemma_only_submissions_join(events, earlier, last);
    }
}

/// What the pass over an L1 block came to in between: the state and the updates
/// once the transactions were looked at, the state once channels were evicted,
/// and the timeouts by which they were.
pub struct BlockTrace {
    pub seen: StateView,
    pub seen_events: Seq<MetricEvent>,
    pub kept: StateView,
    pub canonical_timeout: u64,
    pub shadow_timeout: u64,
}

/// A pass over an L1 block looks at its transactions in the block's own header,
/// then evicts by the number and by the timeouts for the timestamp of that
/// header, and then compares everything that has a partner. The comparison, the
/// drift warning and the latest block are reported under the number that was
/// asked for.
pub proof fn law_block_is_processed_in_order<
    P: Fn(&[u8]) -> Result<Vec<Frame>, FrameParseError>,
    A: Fn(&Channel, &Frame, &BlockInfo) -> FrameOutcome,
    N: Fn(&Channel, u64) -> Option<NormalizedChannel>,
    T: Fn(u64) -> u64,
    D: Fn(&Vec<u8>) -> Result<Vec<u8>, BlobDecodeError>,
>(
    codec: DerivationCodec<P, A, N, T, D>,
    config: ShadowParityMonitorConfig,
    pre: StateView,
    block_number: u64,
    block: L1Block,
    post: StateView,
    report: BlockReport,
    events: Seq<MetricEvent>,
    divergences: Seq<Divergence>,
) -> (trace: BlockTrace)
    requires
        pre.well_formed(),
        codec.processes(config, pre, block_number, block, post, report, events, divergences),
    ensures
        codec.sees_transactions(
            config,
            pre,
            block.transactions@,
            BlockInfo {
                hash: block.hash,
                number: block.number,
                parent_hash: block.parent_hash,
                timestamp: block.timestamp,
            },
            trace.seen,
            trace.seen_events,
        ),
        call_ensures(codec.channel_timeout, (block.timestamp,), trace.canonical_timeout),
        call_ensures(codec.channel_timeout, (block.timestamp,), trace.shadow_timeout),
        ingest_laws::side_lost_expired(
            trace.seen.canonical,
            trace.kept.canonical,
            block.number,
            trace.canonical_timeout,
        ),
        ingest_laws::side_lost_expired(
            trace.seen.shadow,
            trace.kept.shadow,
            block.number,
            trace.shadow_timeout,
        ),
        trace.kept.well_formed(),
        trace.kept.last_result == pre.last_result,
        trace.kept.last_l2_result == pre.last_l2_result,
        trace.kept.last_reported_pending_drift == pre.last_reported_pending_drift,
        trace.seen.canonical.channel_order.len() + trace.seen.shadow.channel_order.len()
            <= usize::MAX ==> report.evicted_channels == trace.seen.canonical.channel_order.len()
            - trace.kept.canonical.channel_order.len() + trace.seen.shadow.channel_order.len()
            - trace.kept.shadow.channel_order.len(),
        post.canonical == trace.kept.after_compare().canonical,
        post.shadow == trace.kept.after_compare().shadow,
        post.last_result == trace.kept.after_compare().last_result,
        post.last_l2_result == trace.kept.after_compare().last_l2_result,
        report.stats == trace.kept.compare_stats(),
        divergences == trace.kept.divergences(block_number),
        report.drift_warning == trace.kept.after_compare().drift_warning(block_number),
        post.last_reported_pending_drift
            == trace.kept.after_compare().after_drift_check().last_reported_pending_drift,
{
    let (seen, seen_events, kept) = choose|
        seen: StateView,
        seen_events: Seq<MetricEvent>,
        kept: StateView,
    | #[trigger]
        codec.processes_via(
            config,
            pre,
            block_number,
            block,
            post,
            report,
            events,
            divergences,
            seen,
            seen_events,
            kept,
        );
    law_transactions_only_add(
        codec,
        config,
        pre,
        block.transactions@,
        block.info(),
        seen,
        seen_events,
    );
    let (canonical, shadow) = choose|canonical: u64, shadow: u64|
        {
            &&& #[trigger] codec.times_out(block.timestamp, canonical)
            &&& #[trigger] codec.times_out(block.timestamp, shadow)
            &&& report.evicted_channels == seen.expired_count(block.number, canonical, shadow)
            &&& kept == seen.without_expired(block.number, canonical, shadow)
        };
    parity_laws::law_evict_removes_exactly_expired(seen.canonical, block.number, canonical);
    parity_laws::law_evict_removes_exactly_expired(seen.shadow, block.number, shadow);
    BlockTrace {
        seen,
        seen_events,
        kept,
        canonical_timeout: canonical,
        shadow_timeout: shadow,
    }
}

/// After a pass over an L1 block no channel is left that opened more than a
/// timeout before the block: a channel that was there before, whatever frames
/// came in the block, is gone once the block is more than the timeout past the
/// one in which it was first seen, unless it was completed and opened again in
/// this block.
pub proof fn law_no_stale_channel_survives_a_block<
    P: Fn(&[u8]) -> Result<Vec<Frame>, FrameParseError>,
    A: Fn(&Channel, &Frame, &BlockInfo) -> FrameOutcome,
    N: Fn(&Channel, u64) -> Option<NormalizedChannel>,
    T: Fn(u64) -> u64,
    D: Fn(&Vec<u8>) -> Result<Vec<u8>, BlobDecodeError>,
>(
    codec: DerivationCodec<P, A, N, T, D>,
    config: ShadowParityMonitorConfig,
    pre: StateView,
    block_number: u64,
    block: L1Block,
    post: StateView,
    report: BlockReport,
    events: Seq<MetricEvent>,
    divergences: Seq<Divergence>,
    side: ParitySide,
    id: ChannelId,
) -> (timeout: u64)
    requires
        pre.well_formed(),
        codec.processes(config, pre, block_number, block, post, report, events, divergences),
        post.side(side).channels.contains_key(id),
    ensures
        call_ensures(codec.channel_timeout, (block.timestamp,), timeout),
        ({
            let channel = post.side(side).channels[id];
            let before = pre.side(side).channels;
            &&& block.number <= channel.open_block.number + timeout
            &&& channel.open_block == block.info() || (before.contains_key(id)
                && channel.open_block == before[id].open_block)
        }),
{
    let trace = law_block_is_processed_in_order(
        codec,
        config,
        pre,
        block_number,
        block,
        post,
        report,
        events,
        divergences,
    );
    law_transactions_only_add(
        codec,
        config,
        pre,
        block.transactions@,
        block.info(),
        trace.seen,
        trace.seen_events,
    );
    assert(trace.kept.side(side).channels.contains_key(id));
    assert(trace.seen.side(side).channels.contains_key(id));
    match side {
        ParitySide::Canonical => trace.canonical_timeout,
        ParitySide::Shadow => trace.shadow_timeout,
    }
}

/// What the metrics show of a pass over an L1 block: the evicted channels, the
/// matches and divergences of the report, the queues and the alignment as the
/// pass left them, and the block as the latest one.
pub proof fn law_block_is_reported<
    P: Fn(&[u8]) -> Result<Vec<Frame>, FrameParseError>,
    A: Fn(&Channel, &Frame, &BlockInfo) -> FrameOutcome,
    N: Fn(&Channel, u64) -> Option<NormalizedChannel>,
    T: Fn(u64) -> u64,
    D: Fn(&Vec<u8>) -> Result<Vec<u8>, BlobDecodeError>,
>(
    codec: DerivationCodec<P, A, N, T, D>,
    config: ShadowParityMonitorConfig,
    pre: StateView,
    block_number: u64,
    block: L1Block,
    post: StateView,
    report: BlockReport,
    events: Seq<MetricEvent>,
    divergences: Seq<Divergence>,
)
    requires
        pre.well_formed(),
        codec.processes(config, pre, block_number, block, post, report, events, divergences),
        post.canonical.batches.len() <= usize::MAX,
        post.shadow.batches.len() <= usize::MAX,
        l2_queue::block_total(post.canonical.l2_blocks) <= usize::MAX,
        l2_queue::block_total(post.shadow.l2_blocks) <= usize::MAX,
    ensures
        gained(events, Counter::EvictedChannels) == report.evicted_channels,
        gained(events, Counter::L1FetchErrors) == 0,
        left_on(events, Gauge::LatestL1Block) == Some(block_number),
        left_on(events, Gauge::Enabled) is None,
        left_on(events, Gauge::CanonicalPendingBatches) == Some(
            post.canonical.batches.len() as u64,
        ),
        left_on(events, Gauge::ShadowPendingBatches) == Some(post.shadow.batches.len() as u64),
        left_on(events, Gauge::CanonicalPendingL2Blocks) == Some(
            l2_queue::block_total(post.canonical.l2_blocks) as u64,
        ),
        left_on(events, Gauge::ShadowPendingL2Blocks) == Some(
            l2_queue::block_total(post.shadow.l2_blocks) as u64,
        ),
        post.alignment() is Some ==> left_on(events, Gauge::Aligned) == Some(
            if post.alignment() == Some(true) {
                1u64
            } else {
                0u64
            },
        ),
        ({
            let canonical = post.canonical.batches.len() as int;
            let shadow = post.shadow.batches.len() as int;
            let drift = if canonical < shadow {
                shadow - canonical
            } else {
                canonical - shadow
            };
            let warning = report.drift_warning;
            &&& warning is Some <==> drift >= 10 && drift != pre.last_reported_pending_drift
            &&& warning is Some ==> warning->0.l1_block == block_number && warning->0.drift == drift
                && warning->0.canonical_pending == canonical && warning->0.shadow_pending == shadow
            &&& post.last_reported_pending_drift == (if drift >= 10 {
                drift
            } else {
                0
            })
        }),
{
    let (seen, seen_events, kept) = choose|
        seen: StateView,
        seen_events: Seq<MetricEvent>,
        kept: StateView,
    | #[trigger]
        codec.processes_via(
            config,
            pre,
            block_number,
            block,
            post,
            report,
            events,
            divergences,
            seen,
            seen_events,
            kept,
        );
    law_transactions_only_add(
        codec,
        config,
        pre,
        block.transactions@,
        block.info(),
        seen,
        seen_events,
    );
    let compared = kept.after_compare();
    report_laws::law_drift_check(compared, block_number);
    lemma_block_counter(
        kept,
        block_number,
        report.evicted_channels,
        seen_events,
        events,
        Counter::EvictedChannels,
    );
    lemma_block_counter(
        kept,
        block_number,
        report.evicted_channels,
        seen_events,
        events,
        Counter::L1FetchErrors,
    );
    lemma_block_gauge(
        kept,
        block_number,
        report.evicted_channels,
        seen_events,
        events,
        Gauge::LatestL1Block,
    );
    lemma_block_gauge(
        kept,
        block_number,
        report.evicted_channels,
        seen_events,
        events,
        Gauge::Enabled,
    );
    lemma_block_gauge(
        kept,
        block_number,
        report.evicted_channels,
        seen_events,
        events,
        Gauge::CanonicalPendingBatches,
    );
    lemma_block_gauge(
        kept,
        block_number,
        report.evicted_channels,
        seen_events,
        events,
        Gauge::ShadowPendingBatches,
    );
    lemma_block_gauge(
        kept,
        block_number,
        report.evicted_channels,
        seen_events,
        events,
        Gauge::CanonicalPendingL2Blocks,
    );
    lemma_block_gauge(
        kept,
        block_number,
        report.evicted_channels,
        seen_events,
        events,
        Gauge::ShadowPendingL2Blocks,
    );
    lemma_block_gauge(
        kept,
        block_number,
        report.evicted_channels,
        seen_events,
        events,
        Gauge::Aligned,
    );
    report_laws::law_pending_gauges_show_what_waits(
        compared,
        Gauge::LatestL1Block,
        Counter::Matches,
    );
    report_laws::law_pending_gauges_show_what_waits(compared, Gauge::Enabled, Counter::Matches);
    report_laws::law_pending_gauges_show_what_waits(compared, Gauge::Aligned, Counter::Matches);
    assert(post.alignment() == compared.alignment());
}

/// The updates of a pass over a block, given those of its transactions.
spec fn block_updates(
    kept: StateView,
    block_number: u64,
    evicted: usize,
    seen_events: Seq<MetricEvent>,
) -> Seq<MetricEvent> {
    let compared = kept.after_compare();
    seen_events + monitor::eviction_report(evicted) + kept.compare_events(block_number)
        + compared.pending_events() + compared.alignment_events() + seq![
        MetricEvent::SetGauge(Gauge::LatestL1Block, block_number),
    ]
}

proof fn lemma_block_counter(
    kept: StateView,
    block_number: u64,
    evicted: usize,
    seen_events: Seq<MetricEvent>,
    events: Seq<MetricEvent>,
    counter: Counter,
)
    requires
        events == block_updates(kept, block_number, evicted, seen_events),
        only_submissions(seen_events),
        counter == Counter::EvictedChannels || counter == Counter::L1FetchErrors,
    ensures
        gained(events, counter) == (if counter == Counter::EvictedChannels {
            evicted as nat
        } else {
            0
        }),
{
    let compared = kept.after_compare();
    let eviction = monitor::eviction_report(evicted);
    let comparing = kept.compare_events(block_number);
    let pending = compared.pending_events();
    let aligned = compared.alignment_events();
    let last = MetricEvent::SetGauge(Gauge::LatestL1Block, block_number);
    report_laws::lemma_gained_join(seen_events, eviction, counter);
    report_laws::lemma_gained_join(seen_events + eviction, comparing, counter);
    report_laws::lemma_gained_join(seen_events + eviction + comparing, pending, counter);
    report_laws::lemma_gained_join(
        seen_events + eviction + comparing + pending,
        aligned,
        counter,
    );
    report_laws::lemma_gained_join(
        seen_events + eviction + comparing + pending + aligned,
        seq![last],
        counter,
    );
    lemma_submissions_only(seen_events, counter, Gauge::Aligned);
    report_laws::law_comparison_reports_only_itself(
        kept,
        block_number,
        counter,
        Gauge::Aligned,
    );
    report_laws::lemma_pending(compared, Gauge::Aligned, counter);
    report_laws::law_alignment_gauge(compared, counter, Gauge::Aligned);
    report_laws::lemma_one_update(last, counter, Gauge::Aligned);
    if evicted > 0 {
        report_laws::lemma_one_update(
            MetricEvent::Increment(Counter::EvictedChannels, evicted as u64),
            counter,
            Gauge::Aligned,
        );
    }
}

proof fn lemma_block_gauge(
    kept: StateView,
    block_number: u64,
    evicted: usize,
    seen_events: Seq<MetricEvent>,
    events: Seq<MetricEvent>,
    gauge: Gauge,
)
    requires
        events == block_updates(kept, block_number, evicted, seen_events),
        only_submissions(seen_events),
        !report_laws::holds_comparison(gauge),
    ensures
        ({
            let compared = kept.after_compare();
            left_on(events, gauge) == latest(
                latest(
                    left_on(compared.pending_events(), gauge),
                    left_on(compared.alignment_events(), gauge),
                ),
                if gauge == Gauge::LatestL1Block {
                    Some(block_number)
                } else {
                    None
                },
            )
        }),
        gauge == Gauge::Aligned ==> left_on(kept.after_compare().alignment_events(), gauge) == (
        match kept.after_compare().alignment() {
            Some(true) => Some(1u64),
            Some(false) => Some(0u64),
            None => None::<u64>,
        }),
        gauge != Gauge::Aligned ==> left_on(
            kept.after_compare().alignment_events(),
            gauge,
        ) is None,
{
    let compared = kept.after_compare();
    let eviction = monitor::eviction_report(evicted);
    let comparing = kept.compare_events(block_number);
    let pending = compared.pending_events();
    let aligned = compared.alignment_events();
    let last = MetricEvent::SetGauge(Gauge::LatestL1Block, block_number);
    report_laws::lemma_left_on_join(seen_events, eviction, gauge);
    report_laws::lemma_left_on_join(seen_events + eviction, comparing, gauge);
    report_laws::lemma_left_on_join(seen_events + eviction + comparing, pending, gauge);
    report_laws::lemma_left_on_join(
        seen_events + eviction + comparing + pending,
        aligned,
        gauge,
    );
    report_laws::lemma_left_on_join(
        seen_events + eviction + comparing + pending + aligned,
        seq![last],
        gauge,
    );
    lemma_submissions_only(seen_events, Counter::L1FetchErrors, gauge);
    report_laws::law_comparison_reports_only_itself(
        kept,
        block_number,
        Counter::L1FetchErrors,
        gauge,
    );
    report_laws::law_alignment_gauge(compared, Counter::L1FetchErrors, gauge);
    report_laws::lemma_one_update(last, Counter::L1FetchErrors, gauge);
    if evicted > 0 {
        report_laws::lemma_one_update(
            MetricEvent::Increment(Counter::EvictedChannels, evicted as u64),
            Counter::L1FetchErrors,
            gauge,
        );
    }
}

} // verus!
