//! Processing of L1 blocks by the shadow parity monitor.

use base_batcher_prover::channel::{
    BlobDecodeError, BlockInfo, Channel, DerivationCodec, Frame, FrameOutcome, FrameParseError,
    NormalizedChannel,
};
use base_batcher_prover::divergence::Divergence;
use base_batcher_prover::metrics::{Counter, Gauge, MetricEvent};
use base_batcher_prover::monitor::{
    BlobReply, L1Block, L1Transaction, ShadowParityMonitor, ShadowParityMonitorConfig,
};
use base_batcher_prover::normalized::NormalizedL2Block;
use base_batcher_prover::parity_state::ParitySide;
use std::time::Duration;

const CANONICAL: [u8; 20] = [0xca; 20];
const SHADOW: [u8; 20] = [0x5a; 20];

fn monitor() -> ShadowParityMonitor {
    ShadowParityMonitor::new(ShadowParityMonitorConfig {
        canonical_inbox: CANONICAL,
        shadow_inbox: SHADOW,
        poll_interval: Duration::from_secs(12),
        start_depth: 1,
        l1_beacon_url: None,
    })
}

/// A payload of two bytes is one frame of the channel named by the first byte.
/// The second byte is the timestamp of its block; zero leaves it incomplete.
fn parse_frames(payload: &[u8]) -> Result<Vec<Frame>, FrameParseError> {
    if payload.len() != 2 {
        return Err(FrameParseError { message: "bad length".to_owned() });
    }
    Ok(vec![Frame {
        id: payload[0] as u128,
        number: 0,
        data: vec![payload[1]],
        is_last: payload[1] != 0,
    }])
}

fn codec() -> DerivationCodec<
    impl Fn(&[u8]) -> Result<Vec<Frame>, FrameParseError>,
    impl Fn(&Channel, &Frame, &BlockInfo) -> FrameOutcome,
    impl Fn(&Channel, u64) -> Option<NormalizedChannel>,
    impl Fn(u64) -> u64,
    impl Fn(&Vec<u8>) -> Result<Vec<u8>, BlobDecodeError>,
> {
    DerivationCodec {
        parse_frames,
        add_frame: |_channel: &Channel, frame: &Frame, _block: &BlockInfo| FrameOutcome {
            accepted: true,
            ready: frame.is_last,
        },
        normalize_channel: |channel: &Channel, _timestamp: u64| {
            let timestamp = channel.frames[0].0.data[0] as u64;
            Some(NormalizedChannel {
                batches: vec![],
                l2_blocks: vec![NormalizedL2Block { timestamp, epoch_num: 1, tx_hashes: vec![] }],
            })
        },
        channel_timeout: |_timestamp: u64| 5,
        decode_blob: |blob: &Vec<u8>| {
            if blob.len() == 2 {
                Ok(blob.clone())
            } else {
                Err(BlobDecodeError { message: "bad blob".to_owned() })
            }
        },
    }
}

fn calldata(to: Option<[u8; 20]>, input: &[u8]) -> L1Transaction {
    L1Transaction {
        to,
        input: input.to_vec(),
        blob_versioned_hashes: None,
        blobs: BlobReply::NoProvider,
    }
}

fn blob_tx(to: [u8; 20], count: usize, blobs: BlobReply) -> L1Transaction {
    L1Transaction {
        to: Some(to),
        input: vec![],
        blob_versioned_hashes: Some(vec![[1; 32]; count]),
        blobs,
    }
}

fn block(number: u64, transactions: Vec<L1Transaction>) -> L1Block {
    L1Block { hash: [1; 32], number, parent_hash: [2; 32], timestamp: 77, transactions }
}

#[test]
fn block_info_keeps_the_header() {
    let info = ShadowParityMonitor::block_info(&block(9, vec![]));
    assert_eq!((info.hash, info.number), ([1; 32], 9));
    assert_eq!((info.parent_hash, info.timestamp), ([2; 32], 77));
}

#[test]
fn inbox_address_selects_the_side() {
    let mut monitor = monitor();
    assert_eq!(monitor.inbox(&Some(CANONICAL)), Some(ParitySide::Canonical));
    assert_eq!(monitor.inbox(&Some(SHADOW)), Some(ParitySide::Shadow));
    assert_eq!(monitor.inbox(&Some([0; 20])), None);
    assert_eq!(monitor.inbox(&None), None);
    monitor.config.shadow_inbox = CANONICAL;
    assert_eq!(monitor.inbox(&Some(CANONICAL)), Some(ParitySide::Canonical));
}

#[test]
fn matching_submissions_are_reported_block_by_block() {
    let mut monitor = monitor();
    let txs = vec![
        calldata(Some(CANONICAL), &[1, 9]),
        calldata(Some([0; 20]), &[1, 9]),
        calldata(None, &[1, 9]),
        calldata(Some(SHADOW), &[2, 9]),
    ];
    let report = monitor.process_l1_block(30, &block(30, txs), &codec());
    assert_eq!(report.evicted_channels, 0);
    assert_eq!(report.stats.l2_block_matches, 1);
    assert_eq!(report.drift_warning, None);
    assert_eq!(monitor.state.is_aligned(), Some(true));
    assert_eq!(
        monitor.metrics.drain(),
        vec![
            MetricEvent::Increment(Counter::CanonicalPayloads, 1),
            MetricEvent::Increment(Counter::CanonicalCompleteChannels, 1),
            MetricEvent::Increment(Counter::CanonicalBatches, 0),
            MetricEvent::Increment(Counter::CanonicalL2Blocks, 1),
            MetricEvent::Increment(Counter::ShadowPayloads, 1),
            MetricEvent::Increment(Counter::ShadowCompleteChannels, 1),
            MetricEvent::Increment(Counter::ShadowBatches, 0),
            MetricEvent::Increment(Counter::ShadowL2Blocks, 1),
            MetricEvent::Increment(Counter::L2BlockMatches, 1),
            MetricEvent::SetGauge(Gauge::LastL2BlockMatchTimestamp, 9),
            MetricEvent::SetGauge(Gauge::LastL2BlockMatchL1Block, 30),
            MetricEvent::SetGauge(Gauge::CanonicalPendingBatches, 0),
            MetricEvent::SetGauge(Gauge::ShadowPendingBatches, 0),
            MetricEvent::SetGauge(Gauge::PendingBatchDelta, 0),
            MetricEvent::SetGauge(Gauge::CanonicalPendingL2Blocks, 0),
            MetricEvent::SetGauge(Gauge::ShadowPendingL2Blocks, 0),
            MetricEvent::SetGauge(Gauge::PendingL2BlockDelta, 0),
            MetricEvent::SetGauge(Gauge::OldestUnmatchedCanonicalL2Timestamp, 0),
            MetricEvent::SetGauge(Gauge::OldestUnmatchedShadowL2Timestamp, 0),
            MetricEvent::SetGauge(Gauge::Aligned, 1),
            MetricEvent::SetGauge(Gauge::LatestL1Block, 30),
        ]
    );
}

#[test]
fn empty_calldata_is_ignored() {
    let mut monitor = monitor();
    let info = ShadowParityMonitor::block_info(&block(1, vec![]));
    monitor.process_transaction(
        ParitySide::Shadow,
        &calldata(Some(SHADOW), &[]),
        info,
        &codec(),
    );
    assert!(monitor.metrics.events.is_empty());
}

#[test]
fn blob_hashes_without_entries_mean_calldata() {
    let mut monitor = monitor();
    let info = ShadowParityMonitor::block_info(&block(1, vec![]));
    let mut tx = calldata(Some(SHADOW), &[3, 0]);
    tx.blob_versioned_hashes = Some(vec![]);
    assert!(!tx.carries_blobs());
    monitor.process_transaction(ParitySide::Shadow, &tx, info, &codec());
    assert_eq!(
        monitor.metrics.drain(),
        vec![MetricEvent::Increment(Counter::ShadowPayloads, 1)]
    );
    assert_eq!(monitor.state.shadow.channels.len(), 1);
}

#[test]
fn payload_that_does_not_parse_is_counted() {
    let mut monitor = monitor();
    let info = ShadowParityMonitor::block_info(&block(1, vec![]));
    monitor.process_calldata_payload(ParitySide::Canonical, &[1, 2, 3], info, &codec());
    assert_eq!(
        monitor.metrics.drain(),
        vec![
            MetricEvent::Increment(Counter::CanonicalPayloads, 1),
            MetricEvent::Increment(Counter::ExtractionErrors, 1),
        ]
    );
}

#[test]
fn missing_beacon_counts_every_blob() {
    let mut monitor = monitor();
    let info = ShadowParityMonitor::block_info(&block(1, vec![]));
    let tx = blob_tx(SHADOW, 3, BlobReply::NoProvider);
    assert!(tx.carries_blobs());
    monitor.process_transaction(ParitySide::Shadow, &tx, info, &codec());
    assert_eq!(
        monitor.metrics.drain(),
        vec![MetricEvent::Increment(Counter::MissingBeacon, 3)]
    );
}

#[test]
fn failed_blob_fetch_is_counted_once() {
    let mut monitor = monitor();
    let info = ShadowParityMonitor::block_info(&block(1, vec![]));
    let tx = blob_tx(SHADOW, 3, BlobReply::Failed);
    monitor.process_transaction(ParitySide::Shadow, &tx, info, &codec());
    assert_eq!(
        monitor.metrics.drain(),
        vec![MetricEvent::Increment(Counter::BlobFetchErrors, 1)]
    );
}

#[test]
fn blob_that_does_not_decode_is_skipped() {
    let mut monitor = monitor();
    let info = ShadowParityMonitor::block_info(&block(1, vec![]));
    let blobs = BlobReply::Fetched(vec![vec![1], vec![4, 8]]);
    monitor.process_transaction(ParitySide::Shadow, &blob_tx(SHADOW, 2, blobs), info, &codec());
    assert_eq!(
        monitor.metrics.drain(),
        vec![
            MetricEvent::Increment(Counter::ExtractionErrors, 1),
            MetricEvent::Increment(Counter::ShadowPayloads, 1),
            MetricEvent::Increment(Counter::ShadowCompleteChannels, 1),
            MetricEvent::Increment(Counter::ShadowBatches, 0),
            MetricEvent::Increment(Counter::ShadowL2Blocks, 1),
        ]
    );
    assert_eq!(monitor.state.shadow.pending_l2_blocks(), 1);
    assert_eq!(monitor.state.canonical.pending_l2_blocks(), 0);
}

#[test]
fn stale_channel_is_evicted_with_a_report() {
    let mut monitor = monitor();
    let first = block(10, vec![calldata(Some(CANONICAL), &[1, 0])]);
    assert_eq!(monitor.process_l1_block(10, &first, &codec()).evicted_channels, 0);
    assert_eq!(monitor.process_l1_block(15, &block(15, vec![]), &codec()).evicted_channels, 0);
    monitor.metrics.drain();
    let report = monitor.process_l1_block(16, &block(16, vec![]), &codec());
    assert_eq!(report.evicted_channels, 1);
    assert_eq!(monitor.metrics.events[0], MetricEvent::Increment(Counter::EvictedChannels, 1));
    assert!(monitor.state.canonical.channels.is_empty());
}

#[test]
fn foreign_transactions_can_be_left_out() {
    let run = |foreign: bool| {
        let mut monitor = monitor();
        let mut txs = vec![calldata(Some(CANONICAL), &[1, 9])];
        if foreign {
            txs.push(calldata(Some([0; 20]), &[1, 7]));
            txs.insert(0, blob_tx([3; 20], 2, BlobReply::Failed));
        }
        txs.push(calldata(Some(SHADOW), &[4, 8]));
        if foreign {
            txs.push(calldata(None, &[4, 8]));
        }
        let report = monitor.process_l1_block(30, &block(30, txs), &codec());
        (report, monitor.metrics.drain(), monitor.state.canonical.oldest_l2_timestamp())
    };
    assert_eq!(run(true), run(false));
}

#[test]
fn channel_ids_do_not_matter() {
    let run = |canonical: u8, shadow: u8| {
        let mut monitor = monitor();
        let txs = vec![
            calldata(Some(CANONICAL), &[canonical, 9]),
            calldata(Some(SHADOW), &[shadow, 9]),
        ];
        let report = monitor.process_l1_block(30, &block(30, txs), &codec());
        (report, monitor.metrics.drain())
    };
    assert_eq!(run(1, 2), run(200, 200));
}

#[test]
fn divergences_wait_to_be_logged() {
    let mut monitor = monitor();
    let mut left = calldata(Some(CANONICAL), &[1, 9]);
    left.blob_versioned_hashes = Some(vec![]);
    let txs = vec![left, calldata(Some(SHADOW), &[2, 9])];
    monitor.process_l1_block(30, &block(30, txs), &codec());
    assert!(monitor.divergences.records.is_empty());
    monitor.state.canonical.push_l2_block(NormalizedL2Block {
        timestamp: 40,
        epoch_num: 1,
        tx_hashes: vec![],
    });
    monitor.state.shadow.push_l2_block(NormalizedL2Block {
        timestamp: 40,
        epoch_num: 2,
        tx_hashes: vec![],
    });
    monitor.process_l1_block(31, &block(31, vec![]), &codec());
    let records = monitor.divergences.drain();
    assert_eq!(records.len(), 1);
    assert!(matches!(
        records[0],
        Divergence::L2Block(record) if record.l1_block == 31 && record.l2_timestamp == 40
    ));
}
