//! The L1 cursor: which L1 block the shadow parity monitor looks at next.
//!
//! Fetching L1 data and waiting happen outside. The cursor is told what came of
//! the last action and answers with the next one.

use crate::metrics::{BatcherServiceMetrics, Counter, Gauge, MetricEvent};
use crate::monitor::ShadowParityMonitor;
use vstd::prelude::*;

verus! {

/// What the cursor is waiting for.
#[derive(Clone, Copy, Debug, PartialEq, Eq, Structural)]
pub enum CursorPhase {
    /// The monitor was not started yet.
    Idle,
    /// The L1 head that decides where to start.
    Locating,
    /// The next poll, after which the start is looked for again.
    LocatePause,
    /// The L1 head, with the next block to process.
    ReadingHead(u64),
    /// The block being processed, and the L1 head that was read.
    Processing(u64, u64),
    /// The next poll, with the next block to process.
    HeadPause(u64),
    /// Nothing; the monitor has stopped.
    Stopped,
}

/// What the cursor asks for.
#[derive(Clone, Copy, Debug, PartialEq, Eq, Structural)]
pub enum CursorAction {
    /// Start the monitor.
    Start,
    /// Fetch the number of the L1 head block.
    FetchHead,
    /// Process the L1 block with this number.
    ProcessBlock(u64),
    /// Sleep for one polling interval, or until cancellation fires.
    WaitForPoll,
    /// Stop.
    Stop,
}

/// What became of the last action.
#[derive(Clone, Copy, Debug, PartialEq, Eq, Structural)]
pub enum CursorEvent {
    /// The monitor was started.
    Started,
    /// The number of the L1 head block.
    Head(u64),
    /// The L1 head could not be fetched.
    HeadFailed,
    /// The L1 block was processed.
    BlockProcessed,
    /// The L1 block could not be fetched.
    BlockFailed,
    /// The polling interval elapsed.
    PollElapsed,
    /// Cancellation fired during the wait.
    Cancelled,
}

/// The number after a block number, as far as there is one.
pub open spec fn following(block: u64) -> u64 {
    if block < u64::MAX {
        (block + 1) as u64
    } else {
        block
    }
}

/// The first block to scan under a head.
pub open spec fn first_block(head: u64, start_depth: u64) -> u64 {
    if start_depth <= 1 {
        head
    } else if start_depth <= head {
        (head - start_depth + 1) as u64
    } else {
        0
    }
}

impl CursorPhase {
    /// Blocks up to the head are processed; after them the cursor waits.
    pub open spec fn scan(next: u64, head: u64) -> CursorPhase {
        if next <= head {
            CursorPhase::Processing(next, head)
        } else {
            CursorPhase::HeadPause(next)
        }
    }

    /// The phase after an event. An event that does not answer what the cursor
    /// is waiting for changes nothing.
    pub open spec fn after(self, event: CursorEvent, start_depth: u64) -> CursorPhase {
        match (self, event) {
            (CursorPhase::Idle, CursorEvent::Started) => CursorPhase::Locating,
            (CursorPhase::Locating, CursorEvent::Head(head)) => CursorPhase::ReadingHead(
                first_block(head, start_depth),
            ),
            (CursorPhase::Locating, CursorEvent::HeadFailed) => CursorPhase::LocatePause,
            (CursorPhase::LocatePause, CursorEvent::PollElapsed) => CursorPhase::Locating,
            (CursorPhase::LocatePause, CursorEvent::Cancelled) => CursorPhase::Stopped,
            (CursorPhase::ReadingHead(next), CursorEvent::Head(head)) => CursorPhase::scan(
                next,
                head,
            ),
            (CursorPhase::ReadingHead(next), CursorEvent::HeadFailed) => CursorPhase::HeadPause(
                next,
            ),
            (CursorPhase::Processing(next, head), CursorEvent::BlockProcessed) => CursorPhase::scan(
                following(next),
                head,
            ),
            (CursorPhase::Processing(next, head), CursorEvent::BlockFailed) => {
                CursorPhase::HeadPause(next)
            },
            (CursorPhase::HeadPause(next), CursorEvent::PollElapsed) => CursorPhase::ReadingHead(
                next,
            ),
            (CursorPhase::HeadPause(next), CursorEvent::Cancelled) => CursorPhase::Stopped,
            _ => self,
        }
    }

    /// The action that answers what the cursor is waiting for.
    pub open spec fn action(self) -> CursorAction {
        match self {
            CursorPhase::Idle => CursorAction::Start,
            CursorPhase::Locating => CursorAction::FetchHead,
            CursorPhase::LocatePause => CursorAction::WaitForPoll,
            CursorPhase::ReadingHead(next) => CursorAction::FetchHead,
            CursorPhase::Processing(next, head) => CursorAction::ProcessBlock(next),
            CursorPhase::HeadPause(next) => CursorAction::WaitForPoll,
            CursorPhase::Stopped => CursorAction::Stop,
        }
    }

    /// The metric updates of an event: the monitor is reported as running from
    /// its start until it stops, and each failed fetch is counted.
    pub open spec fn events(self, event: CursorEvent) -> Seq<MetricEvent> {
        match (self, event) {
            (CursorPhase::Idle, CursorEvent::Started) => seq![
                MetricEvent::SetGauge(Gauge::Enabled, 1),
            ],
            (CursorPhase::LocatePause, CursorEvent::Cancelled) => seq![
                MetricEvent::SetGauge(Gauge::Enabled, 0),
            ],
            (CursorPhase::HeadPause(next), CursorEvent::Cancelled) => seq![
                MetricEvent::SetGauge(Gauge::Enabled, 0),
            ],
            (CursorPhase::Locating, CursorEvent::HeadFailed) => seq![
                MetricEvent::Increment(Counter::L1FetchErrors, 1),
            ],
            (CursorPhase::ReadingHead(next), CursorEvent::HeadFailed) => seq![
                MetricEvent::Increment(Counter::L1FetchErrors, 1),
            ],
            (CursorPhase::Processing(next, head), CursorEvent::BlockFailed) => seq![
                MetricEvent::Increment(Counter::L1FetchErrors, 1),
            ],
            _ => Seq::empty(),
        }
    }

    /// The next block to process, once it is known.
    pub open spec fn next_block(self) -> Option<u64> {
        match self {
            CursorPhase::ReadingHead(next) => Some(next),
            CursorPhase::Processing(next, head) => Some(next),
            CursorPhase::HeadPause(next) => Some(next),
            _ => None,
        }
    }

    /// The phase after events in order.
    pub open spec fn after_all(self, events: Seq<CursorEvent>, start_depth: u64) -> CursorPhase
        decreases events.len(),
    {
        if events.len() == 0 {
            self
        } else {
            self.after_all(events.drop_last(), start_depth).after(events.last(), start_depth)
        }
    }

    /// The number of blocks reported as processed when the cursor asked for
    /// them.
    pub open spec fn processed(self, events: Seq<CursorEvent>, start_depth: u64) -> nat
        decreases events.len(),
    {
        if events.len() == 0 {
            0
        } else {
            let earlier = self.processed(events.drop_last(), start_depth);
            if self.after_all(events.drop_last(), start_depth) is Processing && events.last()
                == CursorEvent::BlockProcessed {
                earlier + 1
            } else {
                earlier
            }
        }
    }
}

/// The position of the shadow parity monitor on L1.
#[derive(Clone, Copy, Debug, PartialEq, Eq, Structural)]
pub struct L1Cursor {
    /// What the cursor is waiting for.
    pub phase: CursorPhase,
}

impl Default for L1Cursor {
    /// A cursor that was not started.
    fn default() -> (cursor: Self)
        ensures
            cursor.phase == CursorPhase::Idle,
    {
        L1Cursor { phase: CursorPhase::Idle }
    }
}

impl L1Cursor {
    /// The pending action.
    pub fn action(&self) -> (action: CursorAction)
        ensures
            action == self.phase.action(),
    {
        match self.phase {
            CursorPhase::Idle => CursorAction::Start,
            CursorPhase::Locating => CursorAction::FetchHead,
            CursorPhase::LocatePause => CursorAction::WaitForPoll,
            CursorPhase::ReadingHead(_) => CursorAction::FetchHead,
            CursorPhase::Processing(next, _) => CursorAction::ProcessBlock(next),
            CursorPhase::HeadPause(_) => CursorAction::WaitForPoll,
            CursorPhase::Stopped => CursorAction::Stop,
        }
    }

    /// Tells the cursor what became of the last action, and returns the next
    /// one.
    pub fn advance(
        &mut self,
        event: CursorEvent,
        start_depth: u64,
        metrics: &mut BatcherServiceMetrics,
    ) -> (action: CursorAction)
        ensures
            final(self).phase == old(self).phase.after(event, start_depth),
            action == final(self).phase.action(),
            final(metrics)@ == old(metrics)@ + old(self).phase.events(event),
    {
        let ghost recorded = metrics@;
        let before = self.phase;
        self.phase =
        match (before, event) {
            (CursorPhase::Idle, CursorEvent::Started) => {
                metrics.set(Gauge::Enabled, 1);
                CursorPhase::Locating
            },
            (CursorPhase::Locating, CursorEvent::Head(head)) => {
                CursorPhase::ReadingHead(ShadowParityMonitor::initial_l1_block(head, start_depth))
            },
            (CursorPhase::Locating, CursorEvent::HeadFailed) => {
                metrics.increment(Counter::L1FetchErrors, 1);
                CursorPhase::LocatePause
            },
            (CursorPhase::LocatePause, CursorEvent::PollElapsed) => CursorPhase::Locating,
            (CursorPhase::LocatePause, CursorEvent::Cancelled) => {
                metrics.set(Gauge::Enabled, 0);
                CursorPhase::Stopped
            },
            (CursorPhase::ReadingHead(next), CursorEvent::Head(head)) => {
                Self::scan(next, head)
            },
            (CursorPhase::ReadingHead(next), CursorEvent::HeadFailed) => {
                metrics.increment(Counter::L1FetchErrors, 1);
                CursorPhase::HeadPause(next)
            },
            (CursorPhase::Processing(next, head), CursorEvent::BlockProcessed) => {
                Self::scan(next.saturating_add(1), head)
            },
            (CursorPhase::Processing(next, _), CursorEvent::BlockFailed) => {
                metrics.increment(Counter::L1FetchErrors, 1);
                CursorPhase::HeadPause(next)
            },
            (CursorPhase::HeadPause(next), CursorEvent::PollElapsed) => {
                CursorPhase::ReadingHead(next)
            },
            (CursorPhase::HeadPause(_), CursorEvent::Cancelled) => {
                metrics.set(Gauge::Enabled, 0);
                CursorPhase::Stopped
            },
            _ => before,
        };
        assert(metrics@ =~= recorded + before.events(event));
        self.action()
    }

    /// Blocks up to the head are processed; after them the cursor waits.
    fn scan(next: u64, head: u64) -> (phase: CursorPhase)
        ensures
            phase == CursorPhase::scan(next, head),
    {
        if next <= head {
            CursorPhase::Processing(next, head)
        } else {
            CursorPhase::HeadPause(next)
        }
    }
}

/// The cursor never moves back and never skips a block: once it has a next
/// block, an event keeps that block or moves on to the following one, and moves
/// on only because the block was processed.
pub proof fn law_cursor_moves_block_by_block(
    phase: CursorPhase,
    event: CursorEvent,
    start_depth: u64,
)
    requires
        phase.next_block() is Some,
        phase.after(event, start_depth) != CursorPhase::Stopped,
    ensures
        phase.after(event, start_depth).next_block() == (if phase is Processing && event
            == CursorEvent::BlockProcessed {
            Some(following(phase.next_block()->0))
        } else {
            phase.next_block()
        }),
{
}

/// Over any run of events that does not stop the monitor, the cursor has moved
/// on from its first block by exactly the number of blocks that were processed,
/// as long as block numbers last.
pub proof fn law_cursor_counts_processed_blocks(
    phase: CursorPhase,
    events: Seq<CursorEvent>,
    start_depth: u64,
)
    requires
        phase.next_block() is Some,
        phase.after_all(events, start_depth) != CursorPhase::Stopped,
        phase.next_block()->0 + phase.processed(events, start_depth) <= u64::MAX,
    ensures
        phase.after_all(events, start_depth).next_block() == Some(
            (phase.next_block()->0 + phase.processed(events, start_depth)) as u64,
        ),
    decreases events.len(),
{
    if events.len() > 0 {
        let earlier = events.drop_last();
        assert(phase.after_all(earlier, start_depth) != CursorPhase::Stopped);
        law_cursor_counts_processed_blocks(phase, earlier, start_depth);
        law_cursor_moves_block_by_block(
            phase.after_all(earlier, start_depth),
            events.last(),
            start_depth,
        );
    }
}

/// Every L1 head that is reported leaves room for a following block.
pub open spec fn heads_below_end(events: Seq<CursorEvent>) -> bool {
    forall|i: int|
        0 <= i < events.len() ==> (#[trigger] events[i] matches CursorEvent::Head(head) ==> head
            < u64::MAX)
}

impl CursorPhase {
    /// The block where the scan starts, once the first head was read.
    pub open spec fn located(self, events: Seq<CursorEvent>, start_depth: u64) -> Option<u64>
        decreases events.len(),
    {
        if events.len() == 0 {
            None
        } else {
            match (self.after_all(events.drop_last(), start_depth), events.last()) {
                (CursorPhase::Locating, CursorEvent::Head(head)) => Some(
                    first_block(head, start_depth),
                ),
                _ => self.located(events.drop_last(), start_depth),
            }
        }
    }

    /// The L1 head that was read last, once one was.
    pub open spec fn last_head(self, events: Seq<CursorEvent>, start_depth: u64) -> Option<u64>
        decreases events.len(),
    {
        if events.len() == 0 {
            None
        } else {
            match (self.after_all(events.drop_last(), start_depth), events.last()) {
                (CursorPhase::Locating, CursorEvent::Head(head)) => Some(head),
                (CursorPhase::ReadingHead(next), CursorEvent::Head(head)) => Some(head),
                _ => self.last_head(events.drop_last(), start_depth),
            }
        }
    }

    /// The blocks reported as processed when the cursor asked for them, in
    /// order.
    pub open spec fn processed_blocks(self, events: Seq<CursorEvent>, start_depth: u64) -> Seq<u64>
        decreases events.len(),
    {
        if events.len() == 0 {
            Seq::empty()
        } else {
            let earlier = self.processed_blocks(events.drop_last(), start_depth);
            match (self.after_all(events.drop_last(), start_depth), events.last()) {
                (CursorPhase::Processing(next, head), CursorEvent::BlockProcessed) => earlier.push(
                    next,
                ),
                _ => earlier,
            }
        }
    }

    /// The number of heads and blocks that failed when the cursor asked for
    /// them.
    pub open spec fn failures(self, events: Seq<CursorEvent>, start_depth: u64) -> nat
        decreases events.len(),
    {
        if events.len() == 0 {
            0
        } else {
            let earlier = self.failures(events.drop_last(), start_depth);
            match (self.after_all(events.drop_last(), start_depth), events.last()) {
                (CursorPhase::Locating, CursorEvent::HeadFailed) => earlier + 1,
                (CursorPhase::ReadingHead(next), CursorEvent::HeadFailed) => earlier + 1,
                (CursorPhase::Processing(next, head), CursorEvent::BlockFailed) => earlier + 1,
                _ => earlier,
            }
        }
    }

    /// The metric updates of events in order.
    pub open spec fn all_events(self, events: Seq<CursorEvent>, start_depth: u64) -> Seq<
        MetricEvent,
    >
        decreases events.len(),
    {
        if events.len() == 0 {
            Seq::empty()
        } else {
            self.all_events(events.drop_last(), start_depth) + self.after_all(
                events.drop_last(),
                start_depth,
            ).events(events.last())
        }
    }
}

/// What the L1 fetch error counter gains by metric updates.
pub open spec fn fetch_errors(updates: Seq<MetricEvent>) -> nat
    decreases updates.len(),
{
    if updates.len() == 0 {
        0
    } else {
        let earlier = fetch_errors(updates.drop_last());
        match updates.last() {
            MetricEvent::Increment(Counter::L1FetchErrors, amount) => earlier + amount as nat,
            _ => earlier,
        }
    }
}

/// Where a run of the monitor stands: what it is about to process is under the
/// head that was read last, and the next block is the start of the scan moved on
/// by the blocks that were processed.
spec fn run_stands(events: Seq<CursorEvent>, start_depth: u64) -> bool {
    let phase = CursorPhase::Idle.after_all(events, start_depth);
    let located = CursorPhase::Idle.located(events, start_depth);
    let blocks = CursorPhase::Idle.processed_blocks(events, start_depth);
    &&& phase is Idle || phase is Locating || phase is LocatePause ==> located is None
    &&& located is None ==> blocks.len() == 0
    &&& phase.next_block() is Some ==> located is Some && phase.next_block()->0 == located->0
        + blocks.len()
    &&& phase matches CursorPhase::Processing(next, head) ==> next <= head && head < u64::MAX
        && CursorPhase::Idle.last_head(events, start_depth) == Some(head)
    &&& forall|i: int| 0 <= i < blocks.len() ==> #[trigger] blocks[i] == located->0 + i
}

proof fn lemma_run_stands(events: Seq<CursorEvent>, start_depth: u64)
    requires
        heads_below_end(events),
    ensures
        run_stands(events, start_depth),
    decreases events.len(),
{
    if events.len() > 0 {
        let earlier = events.drop_last();
        assert forall|i: int| 0 <= i < earlier.len() implies (
        #[trigger] earlier[i] matches CursorEvent::Head(head) ==> head < u64::MAX) by {
            assert(earlier[i] == events[i]);
        }
        lemma_run_stands(earlier, start_depth);
        assert(events[events.len() - 1] == events.last());
    }
}

/// From its start, whatever happens, the monitor processes consecutive blocks
/// from the start of the scan on, in order, without a gap and without a repeat,
/// as long as block numbers last.
pub proof fn law_run_processes_consecutive_blocks(events: Seq<CursorEvent>, start_depth: u64)
    requires
        heads_below_end(events),
    ensures
        ({
            let blocks = CursorPhase::Idle.processed_blocks(events, start_depth);
            let located = CursorPhase::Idle.located(events, start_depth);
            &&& blocks.len() > 0 ==> located is Some
            &&& forall|i: int| 0 <= i < blocks.len() ==> #[trigger] blocks[i] == located->0 + i
        }),
{
    lemma_run_stands(events, start_depth);
}

/// A run of the monitor asks for a block only up to the head that it read last,
/// and the block is the one after those that were processed. A failure does not
/// change which block that is, so a block that failed is attempted again before
/// any other.
pub proof fn law_run_attempts_the_next_block(
    events: Seq<CursorEvent>,
    start_depth: u64,
    block: u64,
)
    requires
        heads_below_end(events),
        CursorPhase::Idle.after_all(events, start_depth).action() == CursorAction::ProcessBlock(
            block,
        ),
    ensures
        CursorPhase::Idle.last_head(events, start_depth) is Some,
        block <= CursorPhase::Idle.last_head(events, start_depth)->0,
        CursorPhase::Idle.located(events, start_depth) is Some,
        block == CursorPhase::Idle.located(events, start_depth)->0
            + CursorPhase::Idle.processed_blocks(events, start_depth).len(),
{
    lemma_run_stands(events, start_depth);
}

proof fn lemma_fetch_errors_join(left: Seq<MetricEvent>, right: Seq<MetricEvent>)
    ensures
        fetch_errors(left + right) == fetch_errors(left) + fetch_errors(right),
    decreases right.len(),
{
    if right.len() == 0 {
        assert(left + right =~= left);
    } else {
        lemma_fetch_errors_join(left, right.drop_last());
        assert((left + right).drop_last() =~= left + right.drop_last());
        assert((left + right).last() == right.last());
    }
}

/// Over any run of events, every head and every block that failed adds one to
/// the L1 fetch error counter, and nothing else does.
pub proof fn law_run_counts_failures(
    phase: CursorPhase,
    events: Seq<CursorEvent>,
    start_depth: u64,
)
    ensures
        fetch_errors(phase.all_events(events, start_depth)) == phase.failures(
            events,
            start_depth,
        ),
    decreases events.len(),
{
    if events.len() > 0 {
        let earlier = events.drop_last();
        let last = phase.after_all(earlier, start_depth).events(events.last());
        law_run_counts_failures(phase, earlier, start_depth);
        lemma_fetch_errors_join(phase.all_events(earlier, start_depth), last);
        if last.len() > 0 {
            assert(fetch_errors(last.drop_last()) == 0);
        }
    }
}

/// Only blocks up to the L1 head that was read are asked for.
pub proof fn law_cursor_stays_under_head(phase: CursorPhase, event: CursorEvent, start_depth: u64)
    requires
        phase matches CursorPhase::Processing(next, head) ==> next <= head,
    ensures
        phase.after(event, start_depth) matches CursorPhase::Processing(next, head) ==> next
            <= head,
        phase is ReadingHead && phase.after(event, start_depth) is Processing ==> event
            == CursorEvent::Head(phase.after(event, start_depth)->Processing_1),
{
}

/// A block that could not be processed is asked for again: after the poll and a
/// head that is not below it, the same block is the one to process.
pub proof fn law_failed_block_is_retried(next: u64, head: u64, later_head: u64, start_depth: u64)
    requires
        next <= later_head,
    ensures
        CursorPhase::Processing(next, head).after(CursorEvent::BlockFailed, start_depth).after(
            CursorEvent::PollElapsed,
            start_depth,
        ).after(CursorEvent::Head(later_head), start_depth).action()
            == CursorAction::ProcessBlock(next),
{
}

/// The start of the scan covers the configured number of recent blocks, or all
/// of the chain where it is shorter; the head is always covered.
pub proof fn law_scan_starts_at_depth(head: u64, start_depth: u64)
    ensures
        first_block(head, start_depth) <= head,
        head - first_block(head, start_depth) + 1 == (if start_depth == 0 {
            1
        } else if start_depth <= head + 1 {
            start_depth as int
        } else {
            head + 1
        }),
{
}

/// The monitor is reported as stopped exactly when it stops, and as running
/// exactly when it starts.
pub proof fn law_enabled_follows_the_monitor(
    phase: CursorPhase,
    event: CursorEvent,
    start_depth: u64,
)
    ensures
        phase.events(event).contains(MetricEvent::SetGauge(Gauge::Enabled, 0)) <==> phase
            != CursorPhase::Stopped && phase.after(event, start_depth) == CursorPhase::Stopped,
        phase.events(event).contains(MetricEvent::SetGauge(Gauge::Enabled, 1)) <==> phase
            == CursorPhase::Idle && phase.after(event, start_depth) != CursorPhase::Idle,
{
    let events = phase.events(event);
    if events.len() > 0 {
        assert(events.contains(events[0]));
    }
}

/// The value that metric updates leave on the enabled gauge, if they set it.
pub open spec fn last_enabled(updates: Seq<MetricEvent>) -> Option<u64>
    decreases updates.len(),
{
    if updates.len() == 0 {
        None
    } else {
        match updates.last() {
            MetricEvent::SetGauge(Gauge::Enabled, value) => Some(value),
            _ => last_enabled(updates.drop_last()),
        }
    }
}

proof fn lemma_last_enabled_join(left: Seq<MetricEvent>, right: Seq<MetricEvent>)
    ensures
        last_enabled(left + right) == (match last_enabled(right) {
            Some(value) => Some(value),
            None => last_enabled(left),
        }),
    decreases right.len(),
{
    if right.len() == 0 {
        assert(left + right =~= left);
    } else {
        lemma_last_enabled_join(left, right.drop_last());
        assert((left + right).drop_last() =~= left + right.drop_last());
        assert((left + right).last() == right.last());
    }
}

/// Over any run of events, the enabled gauge says whether the monitor is
/// running: it is unset before the start, holds 1 from then on, and 0 once the
/// monitor has stopped.
pub proof fn law_run_reports_enabled(events: Seq<CursorEvent>, start_depth: u64)
    ensures
        last_enabled(CursorPhase::Idle.all_events(events, start_depth)) == (
        match CursorPhase::Idle.after_all(events, start_depth) {
            CursorPhase::Idle => None::<u64>,
            CursorPhase::Stopped => Some(0u64),
            _ => Some(1u64),
        }),
    decreases events.len(),
{
    if events.len() > 0 {
        let earlier = events.drop_last();
        let last = CursorPhase::Idle.after_all(earlier, start_depth).events(events.last());
        law_run_reports_enabled(earlier, start_depth);
        lemma_last_enabled_join(CursorPhase::Idle.all_events(earlier, start_depth), last);
        if last.len() > 0 {
            assert(last_enabled(last.drop_last()) is None);
        }
    }
}

/// What a run of the monitor came to.
#[derive(Clone, Debug)]
pub struct MonitorRun {
    /// Where the run stands.
    pub cursor: L1Cursor,
    /// The blocks that were processed, in order.
    pub processed: Vec<u64>,
}

impl ShadowParityMonitor {
    /// Runs the cursor of the monitor from its start over what became of its
    /// actions, one after the other, and records the metric updates. As long as
    /// block numbers last, the processed blocks are consecutive from the start
    /// of the scan on.
    pub fn run(&mut self, outcomes: &[CursorEvent]) -> (run: MonitorRun)
        ensures
            final(self).config == old(self).config,
            final(self).state == old(self).state,
            final(self).divergences == old(self).divergences,
            final(self).metrics@ == old(self).metrics@ + CursorPhase::Idle.all_events(
                outcomes@,
                old(self).config.start_depth,
            ),
            run.cursor.phase == CursorPhase::Idle.after_all(
                outcomes@,
                old(self).config.start_depth,
            ),
            run.processed@ == CursorPhase::Idle.processed_blocks(
                outcomes@,
                old(self).config.start_depth,
            ),
            heads_below_end(outcomes@) ==> forall|i: int|
                0 <= i < run.processed@.len() ==> #[trigger] run.processed@[i]
                    == CursorPhase::Idle.located(outcomes@, old(self).config.start_depth)->0 + i,
    {
        let start_depth = self.config.start_depth;
        let ghost recorded = self.metrics@;
        let ghost config = self.config;
        let ghost state = self.state;
        let ghost logged = self.divergences;
        let mut cursor = L1Cursor::default();
        let mut processed: Vec<u64> = Vec::new();
        let mut i: usize = 0;
        proof {
            assert(outcomes@.take(0) =~= Seq::empty());
            assert(recorded =~= recorded + CursorPhase::Idle.all_events(
                outcomes@.take(0),
                start_depth,
            ));
        }
        while i < outcomes.len()
            invariant
                i <= outcomes.len(),
                self.config == config,
                self.state == state,
                self.divergences == logged,
                self.metrics@ == recorded + CursorPhase::Idle.all_events(
                    outcomes@.take(i as int),
                    start_depth,
                ),
                cursor.phase == CursorPhase::Idle.after_all(outcomes@.take(i as int), start_depth),
                processed@ == CursorPhase::Idle.processed_blocks(
                    outcomes@.take(i as int),
                    start_depth,
                ),
            decreases outcomes.len() - i,
        {
            let outcome = outcomes[i];
            let ghost before = outcomes@.take(i as int);
            let ghost after = outcomes@.take(i + 1);
            proof {
                assert(after.drop_last() =~= before);
                assert(after.last() == outcome);
            }
            match (cursor.phase, outcome) {
                (CursorPhase::Processing(next, _), CursorEvent::BlockProcessed) => {
                    processed.push(next);
                },
                _ => {},
            }
            cursor.advance(outcome, start_depth, &mut self.metrics);
            assert(self.metrics@ =~= recorded + CursorPhase::Idle.all_events(after, start_depth));
            i = i + 1;
        }
        proof {
            assert(outcomes@.take(outcomes@.len() as int) =~= outcomes@);
            if heads_below_end(outcomes@) {
                law_run_processes_consecutive_blocks(outcomes@, start_depth);
            }
        }
        MonitorRun { cursor, processed }
    }
}

/// A monitor that has stopped stays stopped.
pub proof fn law_stopped_is_final(event: CursorEvent, start_depth: u64)
    ensures
        CursorPhase::Stopped.after(event, start_depth) == CursorPhase::Stopped,
        CursorPhase::Stopped.events(event).len() == 0,
{
}

/// Once the head is read, the next block is processed exactly if the head has
/// reached it; otherwise the cursor waits, for the same block.
pub proof fn law_head_decides_whether_to_process(next: u64, head: u64, start_depth: u64)
    ensures
        ({
            let after = CursorPhase::ReadingHead(next).after(CursorEvent::Head(head), start_depth);
            &&& next <= head ==> after.action() == CursorAction::ProcessBlock(next)
            &&& next > head ==> after.action() == CursorAction::WaitForPoll
            &&& after.next_block() == Some(next)
        }),
{
}

/// A processed block is followed at once by the next one up to the head that was
/// read. After the head the cursor waits, then reads the head again, and then
/// processes the block after the last one as soon as the head has reached it.
pub proof fn law_blocks_are_processed_up_to_the_head(
    block: u64,
    head: u64,
    later_head: u64,
    start_depth: u64,
)
    requires
        block < u64::MAX,
    ensures
        ({
            let after = CursorPhase::Processing(block, head).after(
                CursorEvent::BlockProcessed,
                start_depth,
            );
            let polled = after.after(CursorEvent::PollElapsed, start_depth);
            &&& block < head ==> after.action() == CursorAction::ProcessBlock((block + 1) as u64)
            &&& block >= head ==> {
                &&& after.action() == CursorAction::WaitForPoll
                &&& polled.action() == CursorAction::FetchHead
                &&& block < later_head ==> polled.after(
                    CursorEvent::Head(later_head),
                    start_depth,
                ).action() == CursorAction::ProcessBlock((block + 1) as u64)
            }
        }),
{
}

/// A monitor that was not started asks to be. It then reads the head until that
/// succeeds, with a wait after each failure, and starts to scan so many blocks
/// below the head that the configured number of blocks ends with it, or at the
/// first block where the chain is shorter. Without a number it starts at the
/// head.
pub proof fn law_start_locates_the_scan(head: u64, start_depth: u64)
    ensures
        ({
            let idle = CursorPhase::Idle;
            let started = idle.after(CursorEvent::Started, start_depth);
            let failed = started.after(CursorEvent::HeadFailed, start_depth);
            let located = started.after(CursorEvent::Head(head), start_depth);
            &&& idle.action() == CursorAction::Start
            &&& started.action() == CursorAction::FetchHead
            &&& started.next_block() is None
            &&& failed.action() == CursorAction::WaitForPoll
            &&& failed.after(CursorEvent::PollElapsed, start_depth) == started
            &&& located.action() == CursorAction::FetchHead
            &&& located.next_block() is Some
            &&& start_depth == 0 ==> located.next_block()->0 == head
            &&& 0 < start_depth <= head ==> located.next_block()->0 + start_depth == head + 1
            &&& start_depth > head && start_depth > 0 ==> located.next_block()->0 == 0
        }),
{
}

/// A failed fetch of a head or of a block is followed by a wait for the same
/// block, and cancellation during any wait stops the monitor.
pub proof fn law_waits_follow_failures_and_end_on_cancellation(phase: CursorPhase, start_depth: u64)
    ensures
        phase.action() == CursorAction::FetchHead ==> {
            let failed = phase.after(CursorEvent::HeadFailed, start_depth);
            failed.action() == CursorAction::WaitForPoll && failed.next_block()
                == phase.next_block()
        },
        phase.action() is ProcessBlock ==> {
            let failed = phase.after(CursorEvent::BlockFailed, start_depth);
            failed.action() == CursorAction::WaitForPoll && failed.next_block()
                == phase.next_block()
        },
        phase.action() == CursorAction::WaitForPoll ==> phase.after(
            CursorEvent::Cancelled,
            start_depth,
        ).action() == CursorAction::Stop,
        phase.action() == CursorAction::Stop <==> phase == CursorPhase::Stopped,
{
}

/// Only what answers the pending action moves the cursor.
pub proof fn law_only_answers_move_the_cursor(
    phase: CursorPhase,
    event: CursorEvent,
    start_depth: u64,
)
    requires
        match phase.action() {
            CursorAction::Start => event != CursorEvent::Started,
            CursorAction::FetchHead => !(event is Head) && event != CursorEvent::HeadFailed,
            CursorAction::ProcessBlock(block) => event != CursorEvent::BlockProcessed && event
                != CursorEvent::BlockFailed,
            CursorAction::WaitForPoll => event != CursorEvent::PollElapsed && event
                != CursorEvent::Cancelled,
            CursorAction::Stop => true,
        },
    ensures
        phase.after(event, start_depth) == phase,
        phase.events(event).len() == 0,
{
}

/// A run goes event by event. A block joins the processed ones exactly if it was
/// the one asked for and was reported as processed; the start of the scan is
/// decided by the first head that is read.
pub proof fn law_run_goes_event_by_event(
    phase: CursorPhase,
    events: Seq<CursorEvent>,
    event: CursorEvent,
    start_depth: u64,
)
    ensures
        ({
            let before = phase.after_all(events, start_depth);
            let blocks = phase.processed_blocks(events, start_depth);
            let more = events.push(event);
            &&& phase.after_all(more, start_depth) == before.after(event, start_depth)
            &&& phase.all_events(more, start_depth) == phase.all_events(events, start_depth)
                + before.events(event)
            &&& before.action() is ProcessBlock && event == CursorEvent::BlockProcessed
                ==> phase.processed_blocks(more, start_depth) == blocks.push(
                before.action()->ProcessBlock_0,
            )
            &&& !(before.action() is ProcessBlock && event == CursorEvent::BlockProcessed)
                ==> phase.processed_blocks(more, start_depth) == blocks
            &&& before == CursorPhase::Locating && event is Head ==> phase.located(
                more,
                start_depth,
            ) == before.after(event, start_depth).next_block()
            &&& !(before == CursorPhase::Locating && event is Head) ==> phase.located(
                more,
                start_depth,
            ) == phase.located(events, start_depth)
        }),
{
    assert(events.push(event).drop_last() =~= events);
    assert(events.push(event).last() == event);
}

/// Each failed fetch adds one to the L1 fetch errors, the start sets the enabled
/// gauge to 1, the stop sets it to 0, and nothing else is reported.
pub proof fn law_cursor_reports_failures_start_and_stop(
    phase: CursorPhase,
    event: CursorEvent,
    start_depth: u64,
)
    ensures
        ({
            let updates = phase.events(event);
            let failed = phase.action() == CursorAction::FetchHead && event
                == CursorEvent::HeadFailed || phase.action() is ProcessBlock && event
                == CursorEvent::BlockFailed;
            let started = phase.action() == CursorAction::Start && event == CursorEvent::Started;
            let stopped = phase.action() == CursorAction::WaitForPoll && event
                == CursorEvent::Cancelled;
            &&& updates.len() <= 1
            &&& updates.len() == 1 <==> failed || started || stopped
            &&& failed ==> updates[0] == MetricEvent::Increment(Counter::L1FetchErrors, 1)
            &&& started ==> updates[0] == MetricEvent::SetGauge(Gauge::Enabled, 1)
            &&& stopped ==> updates[0] == MetricEvent::SetGauge(Gauge::Enabled, 0)
        }),
{
}

} // verus!
