//! Comparison of canonical and shadow submissions.

use base_batcher_prover::channel::{
    BlobDecodeError, BlockInfo, Channel, DerivationCodec, Frame, FrameOutcome, FrameParseError,
    NormalizedChannel,
};
use base_batcher_prover::comparison::L2MismatchReason;
use base_batcher_prover::divergence::{
    BatchDivergence, Divergence, DivergenceLog, L2Divergence,
};
use base_batcher_prover::error::ParityError;
use base_batcher_prover::metrics::{BatcherServiceMetrics, Counter, Gauge, MetricEvent};
use base_batcher_prover::normalized::{
    NormalizedBatch, NormalizedBatchKind, NormalizedL2Block, ParityComparator,
};
use base_batcher_prover::parity_state::{
    ParitySide, ParityState, PENDING_QUEUE_DRIFT_WARN_THRESHOLD,
};
use base_batcher_prover::side_state::ParitySideState;

const CHANNEL_TIMEOUT: u64 = 5;

fn block_info(number: u64) -> BlockInfo {
    BlockInfo { hash: [0; 32], number, parent_hash: [0; 32], timestamp: 0 }
}

fn channel_id(byte: u8) -> u128 {
    u128::from_be_bytes([byte; 16])
}

fn single_frame(id: u128, data: Vec<u8>) -> Frame {
    Frame { id, number: 0, data, is_last: true }
}

fn normalized_batch(timestamp: u64) -> NormalizedBatch {
    NormalizedBatch {
        kind: NormalizedBatchKind::Single,
        parent_hash: Some([1; 32]),
        epoch_hash: Some([2; 32]),
        parent_check: None,
        l1_origin_check: None,
        chain_id: None,
        origin_bits: None,
        start_timestamp: timestamp,
        end_timestamp: timestamp,
        start_epoch_num: 10,
        end_epoch_num: 10,
        block_count: 1,
        tx_counts: vec![0],
        tx_hashes: vec![],
    }
}

fn normalized_l2_block(timestamp: u64, epoch_num: u64, txs: &[&'static [u8]]) -> NormalizedL2Block {
    NormalizedL2Block {
        timestamp,
        epoch_num,
        tx_hashes: txs.iter().map(|tx| alloy_primitives::keccak256(tx).0).collect(),
    }
}

/// A payload is a list of frames of three bytes: channel, number, data. Zero
/// data in a later frame is rejected; an odd number of bytes does not parse.
fn parse_frames(payload: &[u8]) -> Result<Vec<Frame>, FrameParseError> {
    if payload.len() % 3 != 0 {
        return Err(FrameParseError { message: "truncated frame".to_owned() });
    }
    Ok(payload
        .chunks(3)
        .map(|part| Frame {
            id: channel_id(part[0]),
            number: part[1] as u16,
            data: vec![part[2]],
            is_last: part[2] != 0x01,
        })
        .collect())
}

fn add_frame(channel: &Channel, frame: &Frame, _block: &BlockInfo) -> FrameOutcome {
    let accepted = channel.frames.len() == frame.number as usize;
    FrameOutcome { accepted, ready: channel.ready || (accepted && frame.is_last) }
}

/// A channel whose last frame holds a single 0x02 byte is corrupt; any other
/// one holds one block with one transaction.
fn normalize_channel(channel: &Channel, _inclusion_timestamp: u64) -> Option<NormalizedChannel> {
    let data = &channel.frames.last()?.0.data;
    if data.as_slice() == [0x02] {
        return None;
    }
    Some(NormalizedChannel {
        batches: vec![normalized_batch(1000)],
        l2_blocks: vec![normalized_l2_block(1000, 123, &[b"tx-a"])],
    })
}

fn codec() -> DerivationCodec<
    impl Fn(&[u8]) -> Result<Vec<Frame>, FrameParseError>,
    impl Fn(&Channel, &Frame, &BlockInfo) -> FrameOutcome,
    impl Fn(&Channel, u64) -> Option<NormalizedChannel>,
    impl Fn(u64) -> u64,
    impl Fn(&Vec<u8>) -> Result<Vec<u8>, BlobDecodeError>,
> {
    DerivationCodec {
        parse_frames,
        add_frame,
        normalize_channel,
        channel_timeout: |_timestamp: u64| CHANNEL_TIMEOUT,
        decode_blob: |blob: &Vec<u8>| Ok(blob.clone()),
    }
}

fn errors(metrics: &BatcherServiceMetrics) -> usize {
    metrics
        .events
        .iter()
        .filter(|event| **event == MetricEvent::Increment(Counter::ExtractionErrors, 1))
        .count()
}

#[test]
fn compare_ready_records_match() {
    let mut metrics = BatcherServiceMetrics::default();
    let mut state = ParityState::default();
    state.canonical.batches.push_back(normalized_batch(100));
    state.shadow.batches.push_back(normalized_batch(100));

    let stats = state.compare_ready(50, &mut metrics, &mut DivergenceLog::default());

    assert_eq!(stats.matches, 1);
    assert_eq!(stats.divergences, 0);
    assert_eq!(state.canonical.pending_batches(), 0);
    assert_eq!(state.shadow.pending_batches(), 0);
    assert_eq!(state.is_aligned(), Some(true));
    assert_eq!(
        metrics.drain(),
        vec![
            MetricEvent::Increment(Counter::Matches, 1),
            MetricEvent::SetGauge(Gauge::LastMatchL1Block, 50),
        ]
    );
}

#[test]
fn compare_ready_records_divergence() {
    let mut metrics = BatcherServiceMetrics::default();
    let mut state = ParityState::default();
    state.canonical.batches.push_back(normalized_batch(100));
    state.shadow.batches.push_back(normalized_batch(102));

    let stats = state.compare_ready(50, &mut metrics, &mut DivergenceLog::default());

    assert_eq!(stats.matches, 0);
    assert_eq!(stats.divergences, 1);
    assert_eq!(state.is_aligned(), Some(false));
    assert_eq!(
        metrics.drain(),
        vec![
            MetricEvent::Increment(Counter::Divergences, 1),
            MetricEvent::SetGauge(Gauge::LastDivergenceL1Block, 50),
        ]
    );
}

#[test]
fn pending_batches_are_not_aligned() {
    let mut metrics = BatcherServiceMetrics::default();
    let mut state = ParityState::default();
    state.canonical.batches.push_back(normalized_batch(100));
    state.shadow.batches.push_back(normalized_batch(100));
    state.compare_ready(50, &mut metrics, &mut DivergenceLog::default());
    state.canonical.batches.push_back(normalized_batch(102));

    assert_eq!(state.is_aligned(), Some(false));
}

#[test]
fn pending_batch_delta_reports_queue_drift() {
    let mut state = ParityState::default();
    state.canonical.batches.push_back(normalized_batch(100));
    state.canonical.batches.push_back(normalized_batch(102));

    assert_eq!(state.pending_batch_delta(), 2);
}

#[test]
fn compare_ready_matches_l2_blocks_independent_of_batch_position() {
    let mut metrics = BatcherServiceMetrics::default();
    let mut state = ParityState::default();
    state.shadow.push_l2_block(normalized_l2_block(98, 9, &[b"shadow-extra"]));
    state.canonical.push_l2_block(normalized_l2_block(100, 10, &[b"tx-a"]));
    state.shadow.push_l2_block(normalized_l2_block(100, 10, &[b"tx-a"]));

    let stats = state.compare_ready(50, &mut metrics, &mut DivergenceLog::default());

    assert_eq!(stats.l2_block_matches, 1);
    assert_eq!(stats.l2_block_mismatches, 0);
    assert_eq!(state.canonical.pending_l2_blocks(), 0);
    assert_eq!(state.shadow.pending_l2_blocks(), 1);
    assert_eq!(state.shadow.oldest_l2_timestamp(), Some(98));
    assert_eq!(state.is_aligned(), Some(false));
}

#[test]
fn compare_ready_records_l2_origin_mismatch() {
    let mut metrics = BatcherServiceMetrics::default();
    let mut state = ParityState::default();
    state.canonical.push_l2_block(normalized_l2_block(100, 10, &[b"tx-a"]));
    state.shadow.push_l2_block(normalized_l2_block(100, 11, &[b"tx-a"]));

    let stats = state.compare_ready(50, &mut metrics, &mut DivergenceLog::default());

    assert_eq!(stats.l2_block_matches, 0);
    assert_eq!(stats.l2_block_mismatches, 1);
    assert_eq!(state.canonical.pending_l2_blocks(), 0);
    assert_eq!(state.shadow.pending_l2_blocks(), 0);
    assert_eq!(state.is_aligned(), Some(false));
    assert_eq!(
        metrics.events.last(),
        Some(&MetricEvent::Increment(Counter::L2BlockOriginMismatches, 1))
    );
}

#[test]
fn compare_ready_records_l2_tx_count_mismatch() {
    let mut metrics = BatcherServiceMetrics::default();
    let mut state = ParityState::default();
    state.canonical.push_l2_block(normalized_l2_block(100, 10, &[b"tx-a"]));
    state.shadow.push_l2_block(normalized_l2_block(100, 10, &[b"tx-a", b"tx-b"]));

    let stats = state.compare_ready(50, &mut metrics, &mut DivergenceLog::default());

    assert_eq!(stats.l2_block_matches, 0);
    assert_eq!(stats.l2_block_mismatches, 1);
    assert_eq!(state.is_aligned(), Some(false));
    assert_eq!(
        metrics.events.last(),
        Some(&MetricEvent::Increment(Counter::L2BlockTxCountMismatches, 1))
    );
}

#[test]
fn compare_ready_records_l2_tx_hash_mismatch() {
    let mut metrics = BatcherServiceMetrics::default();
    let mut state = ParityState::default();
    state.canonical.push_l2_block(normalized_l2_block(100, 10, &[b"tx-a"]));
    state.shadow.push_l2_block(normalized_l2_block(100, 10, &[b"tx-b"]));

    let stats = state.compare_ready(50, &mut metrics, &mut DivergenceLog::default());

    assert_eq!(stats.l2_block_matches, 0);
    assert_eq!(stats.l2_block_mismatches, 1);
    assert_eq!(state.is_aligned(), Some(false));
    assert_eq!(
        metrics.drain(),
        vec![
            MetricEvent::Increment(Counter::L2BlockMismatches, 1),
            MetricEvent::SetGauge(Gauge::LastL2BlockMismatchTimestamp, 100),
            MetricEvent::SetGauge(Gauge::LastL2BlockMismatchL1Block, 50),
            MetricEvent::Increment(Counter::L2BlockTxHashMismatches, 1),
        ]
    );
}

#[test]
fn pending_l2_blocks_counts_duplicate_timestamps() {
    let mut state = ParitySideState::default();
    state.push_l2_block(normalized_l2_block(100, 10, &[b"tx-a"]));
    state.push_l2_block(normalized_l2_block(100, 10, &[b"tx-a"]));

    assert_eq!(state.pending_l2_blocks(), 2);
    assert_eq!(state.oldest_l2_timestamp(), Some(100));
}

#[test]
fn drain_ready_channels_skips_corrupt_channel_and_continues() {
    let codec = codec();
    let mut metrics = BatcherServiceMetrics::default();
    let mut state = ParitySideState::default();
    let block_info = block_info(0);
    let corrupt_id = channel_id(1);
    let valid_id = channel_id(2);

    state.ingest_frame(single_frame(corrupt_id, vec![0x02]), block_info, &codec, &mut metrics);
    state.ingest_frame(single_frame(valid_id, b"tx-a".to_vec()), block_info, &codec, &mut metrics);

    let ingested = state.drain_ready_channels(0, &codec, &mut metrics);

    assert_eq!(ingested.complete_channels, 1);
    assert_eq!(ingested.batches, 1);
    assert_eq!(ingested.l2_blocks, 1);
    assert_eq!(ingested.decode_errors, 1);
    assert_eq!(state.pending_batches(), 1);
    assert_eq!(state.pending_l2_blocks(), 1);
    assert!(state.channels.is_empty());
    assert!(state.channel_order.is_empty());
    assert_eq!(state.oldest_l2_timestamp(), Some(1000));
    assert_eq!(errors(&metrics), 1);
}

#[test]
fn evict_expired_channels_removes_stale_incomplete_channels() {
    let codec = codec();
    let mut metrics = BatcherServiceMetrics::default();
    let mut state = ParitySideState::default();
    let expired_id = channel_id(1);
    let live_id = channel_id(2);

    state.ingest_frame(
        Frame { id: expired_id, number: 0, data: vec![0x01], is_last: false },
        block_info(10),
        &codec,
        &mut metrics,
    );
    state.ingest_frame(
        Frame { id: live_id, number: 0, data: vec![0x01], is_last: false },
        block_info(14),
        &codec,
        &mut metrics,
    );

    let evicted = state.evict_expired_channels(16, 0, &codec);

    assert_eq!(evicted, 1);
    assert!(!state.channels.contains_key(&expired_id));
    assert!(state.channels.contains_key(&live_id));
    assert_eq!(state.channel_order.iter().copied().collect::<Vec<_>>(), vec![live_id]);
}

#[test]
fn channel_lives_until_its_timeout_has_passed() {
    let mut metrics = BatcherServiceMetrics::default();
    let mut state = ParityState::default();
    for side in [ParitySide::Canonical, ParitySide::Shadow] {
        let result =
            state.ingest_payload(side, &[7, 0, 1], block_info(10), &codec(), &mut metrics);
        assert_eq!(result.unwrap().complete_channels, 0);
    }
    assert_eq!(state.evict_expired_channels(15, 0, &codec()), 0);
    assert_eq!(state.evict_expired_channels(16, 0, &codec()), 2);
    assert_eq!(state.evict_expired_channels(u64::MAX, 0, &codec()), 0);
}

#[test]
fn timeout_at_the_end_of_block_numbers_never_passes() {
    let mut metrics = BatcherServiceMetrics::default();
    let mut state = ParitySideState::default();
    state.ingest_frame(
        Frame { id: 1, number: 0, data: vec![0x01], is_last: false },
        block_info(u64::MAX - 1),
        &codec(),
        &mut metrics,
    );
    assert_eq!(state.evict_older_channels(u64::MAX, 5), 0);
    assert_eq!(state.evict_older_channels(u64::MAX, 0), 1);
}

#[test]
fn unpaired_batch_keeps_waiting() {
    let mut metrics = BatcherServiceMetrics::default();
    let mut state = ParityState::default();
    state.canonical.batches.push_back(normalized_batch(100));
    state.canonical.batches.push_back(normalized_batch(102));
    state.shadow.batches.push_back(normalized_batch(100));

    let first = state.compare_ready(50, &mut metrics, &mut DivergenceLog::default());
    assert_eq!((first.matches, first.divergences), (1, 0));
    assert_eq!(state.canonical.pending_batches(), 1);

    let second = state.compare_ready(51, &mut metrics, &mut DivergenceLog::default());
    assert_eq!((second.matches, second.divergences), (0, 0));
    assert_eq!(state.canonical.pending_batches(), 1);

    state.shadow.batches.push_back(normalized_batch(102));
    let third = state.compare_ready(52, &mut metrics, &mut DivergenceLog::default());
    assert_eq!((third.matches, third.divergences), (1, 0));
    assert_eq!(state.is_aligned(), Some(true));
}

#[test]
fn second_comparison_finds_nothing() {
    let mut metrics = BatcherServiceMetrics::default();
    let mut state = ParityState::default();
    state.canonical.push_l2_block(normalized_l2_block(100, 10, &[]));
    state.shadow.push_l2_block(normalized_l2_block(100, 10, &[]));
    state.shadow.push_l2_block(normalized_l2_block(100, 10, &[]));

    let first = state.compare_ready(1, &mut metrics, &mut DivergenceLog::default());
    assert_eq!(first.l2_block_matches, 1);
    metrics.drain();
    let second = state.compare_ready(2, &mut metrics, &mut DivergenceLog::default());
    assert_eq!(second.l2_block_matches, 0);
    assert!(metrics.drain().is_empty());
    assert_eq!(state.shadow.pending_l2_blocks(), 1);
}

#[test]
fn matching_blocks_count_as_non_empty_only_with_transactions() {
    let mut metrics = BatcherServiceMetrics::default();
    let mut state = ParityState::default();
    for txs in [&[][..], &[&b"tx-a"[..]][..]] {
        state.canonical.push_l2_block(normalized_l2_block(7, 1, txs));
        state.shadow.push_l2_block(normalized_l2_block(7, 1, txs));
    }
    state.compare_ready(3, &mut metrics, &mut DivergenceLog::default());
    assert_eq!(
        metrics.drain(),
        vec![
            MetricEvent::Increment(Counter::L2BlockMatches, 1),
            MetricEvent::SetGauge(Gauge::LastL2BlockMatchTimestamp, 7),
            MetricEvent::SetGauge(Gauge::LastL2BlockMatchL1Block, 3),
            MetricEvent::Increment(Counter::L2BlockMatches, 1),
            MetricEvent::Increment(Counter::L2BlockNonEmptyMatches, 1),
            MetricEvent::SetGauge(Gauge::LastL2BlockMatchTimestamp, 7),
            MetricEvent::SetGauge(Gauge::LastL2BlockMatchL1Block, 3),
        ]
    );
}

#[test]
fn blocks_of_one_timestamp_leave_in_order() {
    let mut side = ParitySideState::default();
    side.push_l2_block(normalized_l2_block(5, 1, &[]));
    side.push_l2_block(normalized_l2_block(5, 2, &[]));
    side.push_l2_block(normalized_l2_block(4, 3, &[]));
    assert_eq!(side.oldest_l2_timestamp(), Some(4));
    assert_eq!(side.pop_l2_block(5).unwrap().epoch_num, 1);
    assert_eq!(side.pop_l2_block(5).unwrap().epoch_num, 2);
    assert!(side.pop_l2_block(5).is_none());
    assert_eq!(side.pop_l2_block(4).unwrap().epoch_num, 3);
    assert_eq!(side.oldest_l2_timestamp(), None);
    assert!(side.l2_blocks.is_empty());
}

#[test]
fn l2_result_takes_precedence_over_batches() {
    let mut metrics = BatcherServiceMetrics::default();
    let mut state = ParityState::default();
    state.canonical.batches.push_back(normalized_batch(100));
    state.shadow.batches.push_back(normalized_batch(101));
    state.canonical.push_l2_block(normalized_l2_block(100, 10, &[]));
    state.shadow.push_l2_block(normalized_l2_block(100, 10, &[]));
    assert_eq!(state.is_aligned(), None);
    state.compare_ready(1, &mut metrics, &mut DivergenceLog::default());
    assert_eq!(state.is_aligned(), Some(true));
    metrics.drain();
    state.record_alignment_metric(&mut metrics);
    assert_eq!(metrics.drain(), vec![MetricEvent::SetGauge(Gauge::Aligned, 1)]);
}

#[test]
fn alignment_is_not_reported_before_a_comparison() {
    let mut metrics = BatcherServiceMetrics::default();
    let state = ParityState::default();
    state.record_alignment_metric(&mut metrics);
    assert!(metrics.events.is_empty());
}

#[test]
fn drift_is_reported_once_per_value() {
    let mut state = ParityState::default();
    for timestamp in 0..PENDING_QUEUE_DRIFT_WARN_THRESHOLD as u64 - 1 {
        state.shadow.batches.push_back(normalized_batch(timestamp));
    }
    assert_eq!(state.warn_on_pending_drift(1), None);
    state.shadow.batches.push_back(normalized_batch(99));
    let warning = state.warn_on_pending_drift(2).unwrap();
    assert_eq!((warning.l1_block, warning.drift), (2, 10));
    assert_eq!((warning.canonical_pending, warning.shadow_pending), (0, 10));
    assert_eq!(state.warn_on_pending_drift(3), None);
    state.shadow.batches.push_back(normalized_batch(100));
    assert_eq!(state.warn_on_pending_drift(4).unwrap().drift, 11);
    state.shadow.batches.clear();
    assert_eq!(state.warn_on_pending_drift(5), None);
    assert_eq!(state.last_reported_pending_drift, 0);
}

#[test]
fn pending_gauges_report_both_sides() {
    let mut metrics = BatcherServiceMetrics::default();
    let mut state = ParityState::default();
    state.canonical.batches.push_back(normalized_batch(1));
    state.shadow.push_l2_block(normalized_l2_block(9, 1, &[]));
    state.shadow.push_l2_block(normalized_l2_block(8, 1, &[]));
    state.record_pending_metrics(&mut metrics);
    assert_eq!(
        metrics.drain(),
        vec![
            MetricEvent::SetGauge(Gauge::CanonicalPendingBatches, 1),
            MetricEvent::SetGauge(Gauge::ShadowPendingBatches, 0),
            MetricEvent::SetGauge(Gauge::PendingBatchDelta, 1),
            MetricEvent::SetGauge(Gauge::CanonicalPendingL2Blocks, 0),
            MetricEvent::SetGauge(Gauge::ShadowPendingL2Blocks, 2),
            MetricEvent::SetGauge(Gauge::PendingL2BlockDelta, 2),
            MetricEvent::SetGauge(Gauge::OldestUnmatchedCanonicalL2Timestamp, 0),
            MetricEvent::SetGauge(Gauge::OldestUnmatchedShadowL2Timestamp, 8),
        ]
    );
    assert_eq!(state.pending_l2_block_delta(), 2);
}

#[test]
fn payload_that_does_not_parse_changes_nothing() {
    let mut metrics = BatcherServiceMetrics::default();
    let mut state = ParityState::default();
    let result = state.ingest_payload(
        ParitySide::Shadow,
        &[1, 0],
        block_info(1),
        &codec(),
        &mut metrics,
    );
    let error = result.unwrap_err();
    assert!(matches!(error, ParityError::FrameParse(_)));
    assert_eq!(error.to_string(), "failed to parse batcher frames: truncated frame");
    assert!(state.shadow.channels.is_empty());
    assert!(metrics.events.is_empty());
}

#[test]
fn blob_error_has_its_own_text() {
    let error = ParityError::from(BlobDecodeError { message: "bad header".to_owned() });
    assert_eq!(error.to_string(), "failed to decode blob payload: bad header");
}

#[test]
fn rejected_frame_is_counted() {
    let mut metrics = BatcherServiceMetrics::default();
    let mut side = ParitySideState::default();
    let result =
        side.ingest_payload(&[3, 0, 1, 3, 9, 1], block_info(1), &codec(), &mut metrics).unwrap();
    assert_eq!(result.complete_channels, 0);
    assert_eq!(errors(&metrics), 1);
    assert_eq!(side.channel_order.len(), 1);
}

#[test]
fn channel_split_over_payloads_is_decoded_when_complete() {
    let mut metrics = BatcherServiceMetrics::default();
    let mut side = ParitySideState::default();
    let first = side.ingest_payload(&[3, 0, 1], block_info(1), &codec(), &mut metrics).unwrap();
    assert_eq!(first.complete_channels, 0);
    let second = side.ingest_payload(&[3, 1, 9], block_info(2), &codec(), &mut metrics).unwrap();
    assert_eq!((second.complete_channels, second.batches, second.l2_blocks), (1, 1, 1));
    assert!(side.channels.is_empty());
}

#[test]
fn sides_with_different_framing_are_aligned() {
    let mut metrics = BatcherServiceMetrics::default();
    let mut state = ParityState::default();
    for payload in [&[1, 0, 1][..], &[1, 1, 9][..]] {
        state
            .ingest_payload(
                ParitySide::Canonical,
                payload,
                block_info(1),
                &codec(),
                &mut metrics,
            )
            .unwrap();
    }
    state
        .ingest_payload(ParitySide::Shadow, &[200, 0, 9], block_info(2), &codec(), &mut metrics)
        .unwrap();
    let stats = state.compare_ready(3, &mut metrics, &mut DivergenceLog::default());
    assert_eq!((stats.matches, stats.divergences), (1, 0));
    assert_eq!((stats.l2_block_matches, stats.l2_block_mismatches), (1, 0));
    assert_eq!(state.is_aligned(), Some(true));
}

#[test]
fn sides_count_in_their_own_counters() {
    let mut metrics = BatcherServiceMetrics::default();
    ParitySide::Canonical.increment_payloads(&mut metrics);
    ParitySide::Shadow.increment_payloads(&mut metrics);
    ParitySide::Canonical.increment_complete_channels(2, &mut metrics);
    ParitySide::Shadow.increment_complete_channels(3, &mut metrics);
    ParitySide::Canonical.increment_batches(4, &mut metrics);
    ParitySide::Shadow.increment_batches(5, &mut metrics);
    ParitySide::Canonical.increment_l2_blocks(6, &mut metrics);
    ParitySide::Shadow.increment_l2_blocks(7, &mut metrics);
    assert_eq!(
        metrics.drain(),
        vec![
            MetricEvent::Increment(Counter::CanonicalPayloads, 1),
            MetricEvent::Increment(Counter::ShadowPayloads, 1),
            MetricEvent::Increment(Counter::CanonicalCompleteChannels, 2),
            MetricEvent::Increment(Counter::ShadowCompleteChannels, 3),
            MetricEvent::Increment(Counter::CanonicalBatches, 4),
            MetricEvent::Increment(Counter::ShadowBatches, 5),
            MetricEvent::Increment(Counter::CanonicalL2Blocks, 6),
            MetricEvent::Increment(Counter::ShadowL2Blocks, 7),
        ]
    );
    assert!(metrics.events.is_empty());
}

#[test]
fn batch_lists_match_position_by_position() {
    let left = vec![normalized_batch(1), normalized_batch(2)];
    let mut right = vec![normalized_batch(1), normalized_batch(2)];
    assert!(ParityComparator::compare(&left, &right).is_match);
    right[1].tx_hashes.push([9; 32]);
    assert!(!ParityComparator::compare(&left, &right).is_match);
    right.pop();
    assert!(!ParityComparator::compare(&left, &right).is_match);
    assert!(ParityComparator::compare(&[], &[]).is_match);
}

#[test]
fn span_batches_differ_in_their_checks() {
    let mut left = normalized_batch(1);
    left.kind = NormalizedBatchKind::Span;
    left.parent_check = Some([3; 20]);
    left.origin_bits = Some(vec![1, 2]);
    let mut right = left.clone();
    assert!(left.matches(&right));
    right.origin_bits = Some(vec![1]);
    assert!(!left.matches(&right));
    right.origin_bits = Some(vec![1, 2]);
    right.parent_check = Some([4; 20]);
    assert!(!left.matches(&right));
}

#[test]
fn popping_undoes_pushing() {
    let mut side = ParitySideState::default();
    side.push_l2_block(normalized_l2_block(1, 1, &[]));
    side.push_l2_block(normalized_l2_block(2, 7, &[b"tx-a"]));
    let popped = side.pop_l2_block(2).unwrap();
    assert!(popped.content_matches(&normalized_l2_block(2, 7, &[b"tx-a"])));
    assert_eq!(side.pending_l2_blocks(), 1);
    assert_eq!(side.l2_blocks.len(), 1);
}

#[test]
fn submission_order_does_not_matter() {
    let mut metrics = BatcherServiceMetrics::default();
    let mut state = ParityState::default();
    for timestamp in [3, 1, 2] {
        state.canonical.push_l2_block(normalized_l2_block(timestamp, timestamp, &[]));
    }
    for timestamp in [2, 3, 1] {
        state.shadow.push_l2_block(normalized_l2_block(timestamp, timestamp, &[]));
    }
    let stats = state.compare_ready(9, &mut metrics, &mut DivergenceLog::default());
    assert_eq!((stats.l2_block_matches, stats.l2_block_mismatches), (3, 0));
    assert_eq!(
        metrics.events.iter().filter(|event| matches!(
            event,
            MetricEvent::SetGauge(Gauge::LastL2BlockMatchTimestamp, _)
        )).copied().collect::<Vec<_>>(),
        vec![
            MetricEvent::SetGauge(Gauge::LastL2BlockMatchTimestamp, 1),
            MetricEvent::SetGauge(Gauge::LastL2BlockMatchTimestamp, 2),
            MetricEvent::SetGauge(Gauge::LastL2BlockMatchTimestamp, 3),
        ]
    );
}

#[test]
fn exchanged_sides_count_alike() {
    let counts = |swap: bool| {
        let mut metrics = BatcherServiceMetrics::default();
        let mut state = ParityState::default();
        state.canonical.batches.push_back(normalized_batch(1));
        state.canonical.batches.push_back(normalized_batch(2));
        state.shadow.batches.push_back(normalized_batch(1));
        state.shadow.batches.push_back(normalized_batch(3));
        state.canonical.push_l2_block(normalized_l2_block(5, 1, &[]));
        state.shadow.push_l2_block(normalized_l2_block(5, 2, &[b"tx-a"]));
        if swap {
            std::mem::swap(&mut state.canonical, &mut state.shadow);
        }
        state.compare_ready(1, &mut metrics, &mut DivergenceLog::default())
    };
    assert_eq!(counts(false), counts(true));
    assert_eq!((counts(true).matches, counts(true).divergences), (1, 1));
    assert_eq!(counts(true).l2_block_mismatches, 1);
}

#[test]
fn each_divergence_is_recorded() {
    let mut metrics = BatcherServiceMetrics::default();
    let mut log = DivergenceLog::default();
    let mut state = ParityState::default();
    for (canonical, shadow) in [(1, 1), (2, 3)] {
        state.canonical.batches.push_back(normalized_batch(canonical));
        state.shadow.batches.push_back(normalized_batch(shadow));
    }
    state.canonical.push_l2_block(normalized_l2_block(9, 4, &[b"tx-a"]));
    state.shadow.push_l2_block(normalized_l2_block(9, 4, &[b"tx-a"]));
    state.canonical.push_l2_block(normalized_l2_block(8, 4, &[b"tx-a"]));
    state.shadow.push_l2_block(normalized_l2_block(8, 4, &[b"tx-a", b"tx-b"]));
    state.canonical.push_l2_block(normalized_l2_block(7, 5, &[]));
    state.shadow.push_l2_block(normalized_l2_block(7, 6, &[b"tx-b"]));
    state.compare_ready(50, &mut metrics, &mut log);
    assert_eq!(
        log.drain(),
        vec![
            Divergence::Batch(BatchDivergence {
                l1_block: 50,
                canonical_start_timestamp: 2,
                canonical_end_timestamp: 2,
                canonical_start_epoch: 10,
                canonical_end_epoch: 10,
                shadow_start_timestamp: 3,
                shadow_end_timestamp: 3,
                shadow_start_epoch: 10,
                shadow_end_epoch: 10,
            }),
            Divergence::L2Block(L2Divergence {
                l1_block: 50,
                l2_timestamp: 7,
                canonical_epoch: 5,
                shadow_epoch: 6,
                canonical_tx_count: 0,
                shadow_tx_count: 1,
                reason: L2MismatchReason::Origin,
            }),
            Divergence::L2Block(L2Divergence {
                l1_block: 50,
                l2_timestamp: 8,
                canonical_epoch: 4,
                shadow_epoch: 4,
                canonical_tx_count: 1,
                shadow_tx_count: 2,
                reason: L2MismatchReason::TxCount,
            }),
        ]
    );
    assert!(log.records.is_empty());
}

#[test]
fn mismatch_reasons_have_names() {
    assert_eq!(L2MismatchReason::Origin.as_text(), "origin");
    assert_eq!(L2MismatchReason::TxCount.as_text(), "tx_count");
    assert_eq!(L2MismatchReason::TxHash.as_text(), "tx_hash");
}
