//! Laws of the shadow parity monitor.

use crate::channel::{
    BlobDecodeError, BlockInfo, Channel, DerivationCodec, Frame, FrameOutcome, FrameParseError,
    NormalizedChannel,
};
use crate::divergence::Divergence;
use crate::error::ParityError;
use crate::l2_queue;
use crate::metrics::{Gauge, MetricEvent};
use crate::monitor;
use crate::monitor::{BlockReport, L1Block, L1Transaction, ShadowParityMonitorConfig};
use crate::parity_laws;
use crate::parity_state::{ParitySide, StateView};
use crate::side_state::IngestedPayload;
use vstd::prelude::*;

verus! {

/// Only one side of the state changed, and the state stays well formed and
/// settled if it was.
spec fn only_side_changed(pre: StateView, side: ParitySide, post: StateView) -> bool {
    &&& post == pre.with_side(side, post.side(side))
    &&& pre.well_formed() ==> post.well_formed()
    &&& pre.well_formed() && pre.settled() ==> post.settled()
}

proof fn lemma_payload_changes_one_side<
    P: Fn(&[u8]) -> Result<Vec<Frame>, FrameParseError>,
    A: Fn(&Channel, &Frame, &BlockInfo) -> FrameOutcome,
    N: Fn(&Channel, u64) -> Option<NormalizedChannel>,
    T: Fn(u64) -> u64,
    D: Fn(&Vec<u8>) -> Result<Vec<u8>, BlobDecodeError>,
>(
    codec: DerivationCodec<P, A, N, T, D>,
    pre: StateView,
    side: ParitySide,
    payload: Seq<u8>,
    block: BlockInfo,
    post: StateView,
    events: Seq<MetricEvent>,
)
    requires
        codec.takes_payload(pre, side, payload, block, post, events),
    ensures
        only_side_changed(pre, side, post),
{
    let reported = events.skip(1);
    let (result, ingested) = choose|
        result: Result<IngestedPayload, ParityError>,
        ingested: Seq<MetricEvent>,
    | #[trigger]
        codec.reports_via(pre, side, payload, block, post, reported, result, ingested);
    if pre.well_formed() {
        parity_laws::law_ingest_keeps_side(
            codec,
            pre.side(side),
            payload,
            block,
            post.side(side),
            result,
            ingested,
        );
    }
}

proof fn lemma_blobs_change_one_side<
    P: Fn(&[u8]) -> Result<Vec<Frame>, FrameParseError>,
    A: Fn(&Channel, &Frame, &BlockInfo) -> FrameOutcome,
    N: Fn(&Channel, u64) -> Option<NormalizedChannel>,
    T: Fn(u64) -> u64,
    D: Fn(&Vec<u8>) -> Result<Vec<u8>, BlobDecodeError>,
>(
    codec: DerivationCodec<P, A, N, T, D>,
    pre: StateView,
    side: ParitySide,
    blobs: Seq<Vec<u8>>,
    block: BlockInfo,
    post: StateView,
    events: Seq<MetricEvent>,
)
    requires
        codec.takes_blobs(pre, side, blobs, block, post, events),
    ensures
        only_side_changed(pre, side, post),
    decreases blobs.len(),
{
    if blobs.len() > 0 {
        let (mid, earlier, last) = choose|
            mid: StateView,
            earlier: Seq<MetricEvent>,
            last: Seq<MetricEvent>,
        |
            {
                &&& codec.takes_blobs(pre, side, blobs.drop_last(), block, mid, earlier)
                &&& #[trigger] codec.takes_blob(mid, side, blobs.last()@, block, post, last)
                &&& #[trigger] monitor::joined(events, earlier, last)
            };
        lemma_blobs_change_one_side(codec, pre, side, blobs.drop_last(), block, mid, earlier);
        let decoded = choose|decoded: Result<Vec<u8>, BlobDecodeError>| #[trigger]
            codec.takes_blob_via(mid, side, blobs.last()@, block, post, last, decoded);
        if decoded is Ok {
            lemma_payload_changes_one_side(codec, mid, side, decoded->Ok_0@, block, post, last);
        }
    }
}

pub proof fn lemma_blobs_keep_state<
    P: Fn(&[u8]) -> Result<Vec<Frame>, FrameParseError>,
    A: Fn(&Channel, &Frame, &BlockInfo) -> FrameOutcome,
    N: Fn(&Channel, u64) -> Option<NormalizedChannel>,
    T: Fn(u64) -> u64,
    D: Fn(&Vec<u8>) -> Result<Vec<u8>, BlobDecodeError>,
>(
    codec: DerivationCodec<P, A, N, T, D>,
    pre: StateView,
    side: ParitySide,
    blobs: Seq<Vec<u8>>,
    block: BlockInfo,
    post: StateView,
    events: Seq<MetricEvent>,
)
    requires
        codec.takes_blobs(pre, side, blobs, block, post, events),
        pre.well_formed(),
    ensures
        post.well_formed(),
{
    lemma_blobs_change_one_side(codec, pre, side, blobs, block, post, events);
}

/// An inbox transaction changes only the side whose inbox received it and keeps
/// the state well formed, whatever the derivation operations answer.
pub proof fn law_transaction_changes_one_side<
    P: Fn(&[u8]) -> Result<Vec<Frame>, FrameParseError>,
    A: Fn(&Channel, &Frame, &BlockInfo) -> FrameOutcome,
    N: Fn(&Channel, u64) -> Option<NormalizedChannel>,
    T: Fn(u64) -> u64,
    D: Fn(&Vec<u8>) -> Result<Vec<u8>, BlobDecodeError>,
>(
    codec: DerivationCodec<P, A, N, T, D>,
    pre: StateView,
    side: ParitySide,
    tx: L1Transaction,
    block: BlockInfo,
    post: StateView,
    events: Seq<MetricEvent>,
)
    requires
        codec.takes_transaction(pre, side, tx, block, post, events),
    ensures
        post == pre.with_side(side, post.side(side)),
        pre.well_formed() ==> post.well_formed(),
        pre.well_formed() && pre.settled() ==> post.settled(),
{
    if tx.blob_count() == 0 {
        if tx.input@.len() > 0 {
            lemma_payload_changes_one_side(codec, pre, side, tx.input@, block, post, events);
        }
    } else if tx.blobs is Fetched {
        lemma_blobs_change_one_side(codec, pre, side, tx.blobs->Fetched_0@, block, post, events);
    }
}

/// A blob transaction whose blobs cannot be had changes nothing; what is missed
/// is counted: every blob where no beacon is configured, else the failed fetch.
pub proof fn law_unavailable_blobs_change_nothing<
    P: Fn(&[u8]) -> Result<Vec<Frame>, FrameParseError>,
    A: Fn(&Channel, &Frame, &BlockInfo) -> FrameOutcome,
    N: Fn(&Channel, u64) -> Option<NormalizedChannel>,
    T: Fn(u64) -> u64,
    D: Fn(&Vec<u8>) -> Result<Vec<u8>, BlobDecodeError>,
>(
    codec: DerivationCodec<P, A, N, T, D>,
    pre: StateView,
    side: ParitySide,
    tx: L1Transaction,
    block: BlockInfo,
    post: StateView,
    events: Seq<MetricEvent>,
)
    requires
        codec.takes_transaction(pre, side, tx, block, post, events),
        tx.blob_count() > 0,
        !(tx.blobs is Fetched),
    ensures
        post == pre,
        events.len() == 1,
{
}

/// L1 transactions that go to neither inbox change nothing and are not counted.
pub proof fn law_foreign_transactions_are_ignored<
    P: Fn(&[u8]) -> Result<Vec<Frame>, FrameParseError>,
    A: Fn(&Channel, &Frame, &BlockInfo) -> FrameOutcome,
    N: Fn(&Channel, u64) -> Option<NormalizedChannel>,
    T: Fn(u64) -> u64,
    D: Fn(&Vec<u8>) -> Result<Vec<u8>, BlobDecodeError>,
>(
    codec: DerivationCodec<P, A, N, T, D>,
    config: ShadowParityMonitorConfig,
    pre: StateView,
    txs: Seq<L1Transaction>,
    block: BlockInfo,
    post: StateView,
    events: Seq<MetricEvent>,
)
    requires
        codec.sees_transactions(config, pre, txs, block, post, events),
        forall|i: int|
            0 <= i < txs.len() ==> monitor::inbox_side(config, (#[trigger] txs[i]).to) is None,
    ensures
        post == pre,
        events.len() == 0,
    decreases txs.len(),
{
    if txs.len() > 0 {
        let (mid, earlier, last) = choose|
            mid: StateView,
            earlier: Seq<MetricEvent>,
            last: Seq<MetricEvent>,
        |
            {
                &&& codec.sees_transactions(config, pre, txs.drop_last(), block, mid, earlier)
                &&& #[trigger] codec.sees_transaction(config, mid, txs.last(), block, post, last)
                &&& #[trigger] monitor::joined(events, earlier, last)
            };
        assert forall|i: int| 0 <= i < txs.drop_last().len() implies monitor::inbox_side(
            config,
            (#[trigger] txs.drop_last()[i]).to,
        ) is None by {
            assert(txs.drop_last()[i] == txs[i]);
        }
        assert(monitor::inbox_side(config, txs[txs.len() - 1].to) is None);
        law_foreign_transactions_are_ignored(
            codec,
            config,
            pre,
            txs.drop_last(),
            block,
            mid,
            earlier,
        );
    }
}

/// The transaction goes to one of the inboxes.
pub open spec fn to_inbox(config: ShadowParityMonitorConfig) -> spec_fn(L1Transaction) -> bool {
    |tx: L1Transaction| monitor::inbox_side(config, tx.to) is Some
}

/// The transactions that go to one of the inboxes, in order.
pub open spec fn inbox_transactions(
    config: ShadowParityMonitorConfig,
    txs: Seq<L1Transaction>,
) -> Seq<L1Transaction> {
    txs.filter(to_inbox(config))
}

/// Transactions that go to neither inbox can be left out: looking at all L1
/// transactions in order comes to the same as looking at the inbox transactions
/// among them in order.
pub proof fn law_only_inbox_transactions_matter<
    P: Fn(&[u8]) -> Result<Vec<Frame>, FrameParseError>,
    A: Fn(&Channel, &Frame, &BlockInfo) -> FrameOutcome,
    N: Fn(&Channel, u64) -> Option<NormalizedChannel>,
    T: Fn(u64) -> u64,
    D: Fn(&Vec<u8>) -> Result<Vec<u8>, BlobDecodeError>,
>(
    codec: DerivationCodec<P, A, N, T, D>,
    config: ShadowParityMonitorConfig,
    pre: StateView,
    txs: Seq<L1Transaction>,
    block: BlockInfo,
    post: StateView,
    events: Seq<MetricEvent>,
)
    ensures
        codec.sees_transactions(config, pre, txs, block, post, events)
            <==> codec.sees_transactions(
            config,
            pre,
            inbox_transactions(config, txs),
            block,
            post,
            events,
        ),
    decreases txs.len(),
{
    reveal(Seq::filter);
    let inbox = inbox_transactions(config, txs);
    if txs.len() > 0 {
        let front = txs.drop_last();
        let inbox_front = inbox_transactions(config, front);
        if codec.sees_transactions(config, pre, txs, block, post, events) {
            let (mid, earlier, last) = choose|
                mid: StateView,
                earlier: Seq<MetricEvent>,
                last: Seq<MetricEvent>,
            |
                {
                    &&& codec.sees_transactions(config, pre, front, block, mid, earlier)
                    &&& #[trigger] codec.sees_transaction(
                        config,
                        mid,
                        txs.last(),
                        block,
                        post,
                        last,
                    )
                    &&& #[trigger] monitor::joined(events, earlier, last)
                };
            law_only_inbox_transactions_matter(codec, config, pre, front, block, mid, earlier);
            if to_inbox(config)(txs.last()) {
                assert(inbox.drop_last() =~= inbox_front);
                assert(codec.sees_transaction(config, mid, inbox.last(), block, post, last));
            } else {
                assert(events =~= earlier);
            }
        }
        if codec.sees_transactions(config, pre, inbox, block, post, events) {
            if to_inbox(config)(txs.last()) {
                assert(inbox.drop_last() =~= inbox_front);
                let (mid, earlier, last) = choose|
                    mid: StateView,
                    earlier: Seq<MetricEvent>,
                    last: Seq<MetricEvent>,
                |
                    {
                        &&& codec.sees_transactions(
                            config,
                            pre,
                            inbox.drop_last(),
                            block,
                            mid,
                            earlier,
                        )
                        &&& #[trigger] codec.sees_transaction(
                            config,
                            mid,
                            inbox.last(),
                            block,
                            post,
                            last,
                        )
                        &&& #[trigger] monitor::joined(events, earlier, last)
                    };
                law_only_inbox_transactions_matter(codec, config, pre, front, block, mid, earlier);
                assert(codec.sees_transaction(config, mid, txs.last(), block, post, last));
            } else {
                let nothing = Seq::<MetricEvent>::empty();
                law_only_inbox_transactions_matter(
                    codec,
                    config,
                    pre,
                    front,
                    block,
                    post,
                    events,
                );
                assert(codec.sees_transaction(config, post, txs.last(), block, post, nothing));
                assert(events + nothing =~= events);
                assert(monitor::joined(events, events, nothing));
            }
        }
    }
}

/// Only the receiver of a transaction decides whether and for which side it
/// counts: blocks with equal headers and the same inbox transactions are
/// processed alike, whatever other transactions they hold.
pub proof fn law_blocks_with_equal_inbox_transactions<
    P: Fn(&[u8]) -> Result<Vec<Frame>, FrameParseError>,
    A: Fn(&Channel, &Frame, &BlockInfo) -> FrameOutcome,
    N: Fn(&Channel, u64) -> Option<NormalizedChannel>,
    T: Fn(u64) -> u64,
    D: Fn(&Vec<u8>) -> Result<Vec<u8>, BlobDecodeError>,
>(
    codec: DerivationCodec<P, A, N, T, D>,
    config: ShadowParityMonitorConfig,
    pre: StateView,
    block_number: u64,
    left: L1Block,
    right: L1Block,
    post: StateView,
    report: BlockReport,
    events: Seq<MetricEvent>,
    divergences: Seq<Divergence>,
)
    requires
        left.info() == right.info(),
        inbox_transactions(config, left.transactions@) == inbox_transactions(
            config,
            right.transactions@,
        ),
        codec.processes(config, pre, block_number, left, post, report, events, divergences),
    ensures
        codec.processes(config, pre, block_number, right, post, report, events, divergences),
{
    let (seen, seen_events, kept) = choose|
        seen: StateView,
        seen_events: Seq<MetricEvent>,
        kept: StateView,
    | #[trigger]
        codec.processes_via(
            config,
            pre,
            block_number,
            left,
            post,
            report,
            events,
            divergences,
            seen,
            seen_events,
            kept,
        );
    let info = left.info();
    law_only_inbox_transactions_matter(
        codec,
        config,
        pre,
        left.transactions@,
        info,
        seen,
        seen_events,
    );
    law_only_inbox_transactions_matter(
        codec,
        config,
        pre,
        right.transactions@,
        info,
        seen,
        seen_events,
    );
    assert(codec.processes_via(
        config,
        pre,
        block_number,
        right,
        post,
        report,
        events,
        divergences,
        seen,
        seen_events,
        kept,
    ));
}

pub proof fn lemma_transactions_keep_state<
    P: Fn(&[u8]) -> Result<Vec<Frame>, FrameParseError>,
    A: Fn(&Channel, &Frame, &BlockInfo) -> FrameOutcome,
    N: Fn(&Channel, u64) -> Option<NormalizedChannel>,
    T: Fn(u64) -> u64,
    D: Fn(&Vec<u8>) -> Result<Vec<u8>, BlobDecodeError>,
>(
    codec: DerivationCodec<P, A, N, T, D>,
    config: ShadowParityMonitorConfig,
    pre: StateView,
    txs: Seq<L1Transaction>,
    block: BlockInfo,
    post: StateView,
    events: Seq<MetricEvent>,
)
    requires
        codec.sees_transactions(config, pre, txs, block, post, events),
        pre.well_formed(),
    ensures
        post.well_formed(),
        pre.settled() ==> post.settled(),
    decreases txs.len(),
{
    if txs.len() > 0 {
        let (mid, earlier, last) = choose|
            mid: StateView,
            earlier: Seq<MetricEvent>,
            last: Seq<MetricEvent>,
        |
            {
                &&& codec.sees_transactions(config, pre, txs.drop_last(), block, mid, earlier)
                &&& #[trigger] codec.sees_transaction(config, mid, txs.last(), block, post, last)
                &&& #[trigger] monitor::joined(events, earlier, last)
            };
        lemma_transactions_keep_state(codec, config, pre, txs.drop_last(), block, mid, earlier);
        match monitor::inbox_side(config, txs.last().to) {
            Some(side) => {
                law_transaction_changes_one_side(codec, mid, side, txs.last(), block, post, last);
            },
            None => {},
        }
    }
}

/// Processing any L1 block keeps the state well formed and settled and leaves no
/// pair of L2 blocks uncompared; the block is reported as the latest one, last
/// of all.
pub proof fn law_process_keeps_state<
    P: Fn(&[u8]) -> Result<Vec<Frame>, FrameParseError>,
    A: Fn(&Channel, &Frame, &BlockInfo) -> FrameOutcome,
    N: Fn(&Channel, u64) -> Option<NormalizedChannel>,
    T: Fn(u64) -> u64,
    D: Fn(&Vec<u8>) -> Result<Vec<u8>, BlobDecodeError>,
>(
    codec: DerivationCodec<P, A, N, T, D>,
    config: ShadowParityMonitorConfig,
    pre: StateView,
    block_number: u64,
    block: L1Block,
    post: StateView,
    report: BlockReport,
    events: Seq<MetricEvent>,
    divergences: Seq<Divergence>,
)
    requires
        pre.well_formed(),
        codec.processes(config, pre, block_number, block, post, report, events, divergences),
    ensures
        post.well_formed(),
        pre.settled() ==> post.settled(),
        forall|timestamp: u64| #[trigger]
            l2_queue::waiting_at(post.canonical.l2_blocks, timestamp).len() == 0
                || l2_queue::waiting_at(post.shadow.l2_blocks, timestamp).len() == 0,
        post.canonical.batches.len() == 0 || post.shadow.batches.len() == 0,
        events.len() > 0,
        events.last() == MetricEvent::SetGauge(Gauge::LatestL1Block, block_number),
{
    let (seen, seen_events, kept) = choose|
        seen: StateView,
        seen_events: Seq<MetricEvent>,
        kept: StateView,
    | #[trigger]
        codec.processes_via(
            config,
            pre,
            block_number,
            block,
            post,
            report,
            events,
            divergences,
            seen,
            seen_events,
            kept,
        );
    lemma_transactions_keep_state(
        codec,
        config,
        pre,
        block.transactions@,
        block.info(),
        seen,
        seen_events,
    );
    let (canonical, shadow) = choose|canonical: u64, shadow: u64|
        {
            &&& #[trigger] codec.times_out(block.timestamp, canonical)
            &&& #[trigger] codec.times_out(block.timestamp, shadow)
            &&& report.evicted_channels == seen.expired_count(block.number, canonical, shadow)
            &&& kept == seen.without_expired(block.number, canonical, shadow)
        };
    parity_laws::law_evict_removes_exactly_expired(seen.canonical, block.number, canonical);
    parity_laws::law_evict_removes_exactly_expired(seen.shadow, block.number, shadow);
    if pre.settled() {
        parity_laws::law_evict_removes_incomplete_channels(
            seen.canonical,
            block.number,
            canonical,
        );
        parity_laws::law_evict_removes_incomplete_channels(seen.shadow, block.number, shadow);
    }
    parity_laws::law_compare_keeps_state(kept);
    parity_laws::law_unpaired_batches_keep_waiting(kept);
    assert forall|timestamp: u64| #[trigger]
        l2_queue::waiting_at(post.canonical.l2_blocks, timestamp).len() == 0
            || l2_queue::waiting_at(post.shadow.l2_blocks, timestamp).len() == 0 by {
        parity_laws::law_compare_leaves_no_l2_pair(kept, timestamp);
    }
}

} // verus!
