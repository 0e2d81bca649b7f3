//! The L1 cursor of the shadow parity monitor.

use base_batcher_prover::cursor::{CursorAction, CursorEvent, CursorPhase, L1Cursor};
use base_batcher_prover::metrics::{BatcherServiceMetrics, Counter, Gauge, MetricEvent};
use base_batcher_prover::monitor::{ShadowParityMonitor, ShadowParityMonitorConfig};
use std::time::Duration;

#[test]
fn start_depth_selects_the_first_block() {
    assert_eq!(ShadowParityMonitor::initial_l1_block(100, 1), 100);
    assert_eq!(ShadowParityMonitor::initial_l1_block(100, 0), 100);
    assert_eq!(ShadowParityMonitor::initial_l1_block(100, 10), 91);
    assert_eq!(ShadowParityMonitor::initial_l1_block(100, 101), 0);
    assert_eq!(ShadowParityMonitor::initial_l1_block(100, 500), 0);
    assert_eq!(ShadowParityMonitor::initial_l1_block(u64::MAX, u64::MAX), 1);
}

#[test]
fn blocks_are_scanned_up_to_the_head() {
    let mut metrics = BatcherServiceMetrics::default();
    let mut cursor = L1Cursor::default();
    assert_eq!(cursor.action(), CursorAction::Start);
    assert_eq!(cursor.advance(CursorEvent::Started, 2, &mut metrics), CursorAction::FetchHead);
    assert_eq!(cursor.advance(CursorEvent::Head(10), 2, &mut metrics), CursorAction::FetchHead);
    assert_eq!(
        cursor.advance(CursorEvent::Head(10), 2, &mut metrics),
        CursorAction::ProcessBlock(9)
    );
    assert_eq!(
        cursor.advance(CursorEvent::BlockProcessed, 2, &mut metrics),
        CursorAction::ProcessBlock(10)
    );
    assert_eq!(
        cursor.advance(CursorEvent::BlockProcessed, 2, &mut metrics),
        CursorAction::WaitForPoll
    );
    assert_eq!(cursor.phase, CursorPhase::HeadPause(11));
    assert_eq!(cursor.advance(CursorEvent::PollElapsed, 2, &mut metrics), CursorAction::FetchHead);
    assert_eq!(cursor.advance(CursorEvent::Head(10), 2, &mut metrics), CursorAction::WaitForPoll);
    assert_eq!(cursor.advance(CursorEvent::Cancelled, 2, &mut metrics), CursorAction::Stop);
    assert_eq!(
        metrics.drain(),
        vec![
            MetricEvent::SetGauge(Gauge::Enabled, 1),
            MetricEvent::SetGauge(Gauge::Enabled, 0),
        ]
    );
    assert_eq!(cursor.advance(CursorEvent::PollElapsed, 2, &mut metrics), CursorAction::Stop);
    assert!(metrics.events.is_empty());
}

#[test]
fn failed_block_is_asked_for_again() {
    let mut metrics = BatcherServiceMetrics::default();
    let mut cursor = L1Cursor { phase: CursorPhase::Processing(7, 9) };
    assert_eq!(
        cursor.advance(CursorEvent::BlockFailed, 1, &mut metrics),
        CursorAction::WaitForPoll
    );
    assert_eq!(metrics.drain(), vec![MetricEvent::Increment(Counter::L1FetchErrors, 1)]);
    cursor.advance(CursorEvent::PollElapsed, 1, &mut metrics);
    assert_eq!(
        cursor.advance(CursorEvent::Head(9), 1, &mut metrics),
        CursorAction::ProcessBlock(7)
    );
}

#[test]
fn failed_heads_are_counted_and_retried() {
    let mut metrics = BatcherServiceMetrics::default();
    let mut cursor = L1Cursor { phase: CursorPhase::Locating };
    assert_eq!(cursor.advance(CursorEvent::HeadFailed, 3, &mut metrics), CursorAction::WaitForPoll);
    assert_eq!(cursor.advance(CursorEvent::PollElapsed, 3, &mut metrics), CursorAction::FetchHead);
    cursor.advance(CursorEvent::Head(5), 3, &mut metrics);
    assert_eq!(cursor.phase, CursorPhase::ReadingHead(3));
    assert_eq!(cursor.advance(CursorEvent::HeadFailed, 3, &mut metrics), CursorAction::WaitForPoll);
    assert_eq!(cursor.phase, CursorPhase::HeadPause(3));
    assert_eq!(
        metrics.drain(),
        vec![
            MetricEvent::Increment(Counter::L1FetchErrors, 1),
            MetricEvent::Increment(Counter::L1FetchErrors, 1),
        ]
    );
}

#[test]
fn cancellation_before_the_first_head_reports_the_stop() {
    let mut metrics = BatcherServiceMetrics::default();
    let mut cursor = L1Cursor { phase: CursorPhase::LocatePause };
    assert_eq!(cursor.advance(CursorEvent::Cancelled, 3, &mut metrics), CursorAction::Stop);
    assert_eq!(metrics.drain(), vec![MetricEvent::SetGauge(Gauge::Enabled, 0)]);
}

#[test]
fn events_that_answer_nothing_change_nothing() {
    let mut metrics = BatcherServiceMetrics::default();
    let mut cursor = L1Cursor { phase: CursorPhase::ReadingHead(4) };
    assert_eq!(
        cursor.advance(CursorEvent::BlockProcessed, 3, &mut metrics),
        CursorAction::FetchHead
    );
    assert_eq!(cursor.phase, CursorPhase::ReadingHead(4));
    assert!(metrics.events.is_empty());
}

#[test]
fn last_block_number_is_not_passed() {
    let mut metrics = BatcherServiceMetrics::default();
    let mut cursor = L1Cursor { phase: CursorPhase::Processing(u64::MAX, u64::MAX) };
    assert_eq!(
        cursor.advance(CursorEvent::BlockProcessed, 1, &mut metrics),
        CursorAction::ProcessBlock(u64::MAX)
    );
}

#[test]
fn processed_blocks_are_consecutive_over_failures() {
    let mut metrics = BatcherServiceMetrics::default();
    let mut cursor = L1Cursor::default();
    let mut processed = Vec::new();
    for event in [
        CursorEvent::Started,
        CursorEvent::HeadFailed,
        CursorEvent::PollElapsed,
        CursorEvent::Head(20),
        CursorEvent::Head(20),
        CursorEvent::BlockProcessed,
        CursorEvent::BlockFailed,
        CursorEvent::PollElapsed,
        CursorEvent::HeadFailed,
        CursorEvent::PollElapsed,
        CursorEvent::Head(21),
        CursorEvent::BlockProcessed,
        CursorEvent::BlockProcessed,
        CursorEvent::BlockProcessed,
    ] {
        if let (CursorAction::ProcessBlock(block), CursorEvent::BlockProcessed) =
            (cursor.action(), event)
        {
            processed.push(block);
        }
        cursor.advance(event, 3, &mut metrics);
    }
    assert_eq!(processed, vec![18, 19, 20, 21]);
    let failed = MetricEvent::Increment(Counter::L1FetchErrors, 1);
    assert_eq!(metrics.events.iter().filter(|event| **event == failed).count(), 3);
}

#[test]
fn monitor_run_reports_its_blocks() {
    let mut monitor = ShadowParityMonitor::new(ShadowParityMonitorConfig {
        canonical_inbox: [1; 20],
        shadow_inbox: [2; 20],
        poll_interval: Duration::from_secs(1),
        start_depth: 2,
        l1_beacon_url: None,
    });
    let run = monitor.run(&[
        CursorEvent::Started,
        CursorEvent::Head(6),
        CursorEvent::Head(6),
        CursorEvent::BlockProcessed,
        CursorEvent::BlockFailed,
        CursorEvent::PollElapsed,
        CursorEvent::Head(7),
        CursorEvent::BlockProcessed,
        CursorEvent::BlockProcessed,
    ]);
    assert_eq!(run.processed, vec![5, 6, 7]);
    assert_eq!(run.cursor.phase, CursorPhase::HeadPause(8));
    assert_eq!(
        monitor.metrics.drain(),
        vec![
            MetricEvent::SetGauge(Gauge::Enabled, 1),
            MetricEvent::Increment(Counter::L1FetchErrors, 1),
        ]
    );
    let stopped = monitor.run(&[
        CursorEvent::Started,
        CursorEvent::HeadFailed,
        CursorEvent::Cancelled,
        CursorEvent::Head(9),
    ]);
    assert!(stopped.processed.is_empty());
    assert_eq!(stopped.cursor.phase, CursorPhase::Stopped);
    assert_eq!(
        monitor.metrics.events.last(),
        Some(&MetricEvent::SetGauge(Gauge::Enabled, 0))
    );
}
