//! The shadow parity monitor: which L1 blocks it scans, and what it does with
//! the batch inbox transactions that it finds there.

use crate::channel::{
    BlobDecodeError, BlockInfo, Channel, DerivationCodec, Frame, FrameOutcome, FrameParseError,
    NormalizedChannel,
};
use crate::cursor;
use crate::divergence::{Divergence, DivergenceLog};
use crate::error::ParityError;
use crate::metrics::{BatcherServiceMetrics, Counter, Gauge, MetricEvent};
use crate::normalized;
use crate::normalized::{Address, B256};
use crate::parity_state::{
    ParityCompareStats, ParitySide, ParityState, PendingDriftWarning, StateView,
};
use crate::side_state::IngestedPayload;
use url::Url;
use vstd::prelude::*;

verus! {

/// Runtime configuration for the shadow parity monitor.
#[derive(Debug)]
pub struct ShadowParityMonitorConfig {
    /// Canonical rollup batch inbox used by the op-batcher.
    pub canonical_inbox: Address,
    /// Shadow batch inbox used by this base-batcher instance.
    pub shadow_inbox: Address,
    /// L1 polling interval.
    pub poll_interval: std::time::Duration,
    /// Number of recent L1 blocks to scan on startup.
    pub start_depth: u64,
    /// Optional L1 beacon API URL used to fetch blob sidecars.
    pub l1_beacon_url: Option<Url>,
}

/// What became of a request for the blobs of a transaction.
#[derive(Debug)]
pub enum BlobReply {
    /// No L1 beacon URL is configured, so there is nobody to ask.
    NoProvider,
    /// The blobs could not be fetched.
    Failed,
    /// The blobs, in the order of their hashes.
    Fetched(Vec<Vec<u8>>),
}

/// An L1 transaction, as far as the monitor looks at it.
#[derive(Debug)]
pub struct L1Transaction {
    /// Receiver of the transaction; `None` for a contract creation.
    pub to: Option<Address>,
    /// Calldata of the transaction.
    pub input: Vec<u8>,
    /// Hashes of the blobs of the transaction; `None` where its type has none.
    pub blob_versioned_hashes: Option<Vec<B256>>,
    /// The blobs of the transaction, where they are needed.
    pub blobs: BlobReply,
}

/// An L1 block with its transactions.
#[derive(Debug)]
pub struct L1Block {
    /// Hash of the block.
    pub hash: B256,
    /// Number of the block.
    pub number: u64,
    /// Hash of the parent block.
    pub parent_hash: B256,
    /// Timestamp of the block.
    pub timestamp: u64,
    /// Transactions of the block, in order.
    pub transactions: Vec<L1Transaction>,
}

/// What processing one L1 block found.
#[derive(Clone, Copy, Debug, PartialEq, Eq, Structural)]
pub struct BlockReport {
    /// Number of channels evicted.
    pub evicted_channels: usize,
    /// Counts of the comparison pass.
    pub stats: ParityCompareStats,
    /// Warning about drifting queues, if one is due.
    pub drift_warning: Option<PendingDriftWarning>,
}

/// Continuously compares canonical and shadow batch inbox submissions.
#[derive(Debug)]
pub struct ShadowParityMonitor {
    /// Monitor configuration.
    pub config: ShadowParityMonitorConfig,
    /// Stateful channel and decoded-batch comparison state.
    pub state: ParityState,
    /// Metric updates that were not emitted yet.
    pub metrics: BatcherServiceMetrics,
    /// Divergences that were not logged yet.
    pub divergences: DivergenceLog,
}

/// The side whose inbox received a transaction. Submissions are told apart by
/// the inbox address alone; an address that serves as both inboxes is the
/// canonical one.
pub open spec fn inbox_side(
    config: ShadowParityMonitorConfig,
    to: Option<Address>,
) -> Option<ParitySide> {
    match to {
        Some(address) => if address == config.canonical_inbox {
            Some(ParitySide::Canonical)
        } else if address == config.shadow_inbox {
            Some(ParitySide::Shadow)
        } else {
            None
        },
        None => None,
    }
}

impl L1Transaction {
    /// The number of blobs that carry the submission; without blobs the
    /// calldata carries it.
    pub open spec fn blob_count(self) -> nat {
        match self.blob_versioned_hashes {
            Some(hashes) => hashes@.len(),
            None => 0,
        }
    }

    /// Whether the submission is carried by blobs.
    pub fn carries_blobs(&self) -> (carries: bool)
        ensures
            carries == (self.blob_count() > 0),
    {
        match &self.blob_versioned_hashes {
            Some(hashes) => hashes.len() > 0,
            None => false,
        }
    }
}

/// The metric updates that report an ingested payload.
pub open spec fn ingest_report(
    side: ParitySide,
    result: Result<IngestedPayload, ParityError>,
) -> Seq<MetricEvent> {
    match result {
        Ok(decoded) => if decoded.complete_channels > 0 {
            seq![
                MetricEvent::Increment(
                    side.complete_channel_counter(),
                    decoded.complete_channels as u64,
                ),
                MetricEvent::Increment(side.batch_counter(), decoded.batches as u64),
                MetricEvent::Increment(side.l2_block_counter(), decoded.l2_blocks as u64),
            ]
        } else {
            Seq::empty()
        },
        Err(error) => seq![MetricEvent::Increment(Counter::ExtractionErrors, 1)],
    }
}

/// The metric updates are the earlier ones and then the last ones.
pub open spec fn joined(
    events: Seq<MetricEvent>,
    earlier: Seq<MetricEvent>,
    last: Seq<MetricEvent>,
) -> bool {
    events == earlier + last
}

/// The metric update of an eviction.
pub open spec fn eviction_report(evicted: usize) -> Seq<MetricEvent> {
    if evicted > 0 {
        seq![MetricEvent::Increment(Counter::EvictedChannels, evicted as u64)]
    } else {
        Seq::empty()
    }
}

impl<
    P: Fn(&[u8]) -> Result<Vec<Frame>, FrameParseError>,
    A: Fn(&Channel, &Frame, &BlockInfo) -> FrameOutcome,
    N: Fn(&Channel, u64) -> Option<NormalizedChannel>,
    T: Fn(u64) -> u64,
    D: Fn(&Vec<u8>) -> Result<Vec<u8>, BlobDecodeError>,
> DerivationCodec<P, A, N, T, D> {
    /// Ingesting a payload into a side may have the result and the metric
    /// updates `ingested`, and the reported updates are those and the report.
    pub open spec fn reports_via(
        self,
        pre: StateView,
        side: ParitySide,
        payload: Seq<u8>,
        block: BlockInfo,
        post: StateView,
        events: Seq<MetricEvent>,
        result: Result<IngestedPayload, ParityError>,
        ingested: Seq<MetricEvent>,
    ) -> bool {
        &&& self.ingests(pre.side(side), payload, block, post.side(side), result, ingested)
        &&& post == pre.with_side(side, post.side(side))
        &&& events == ingested + ingest_report(side, result)
    }

    /// Ingesting a payload into a side and reporting it may take the state from
    /// `pre` to `post` with the metric updates.
    pub open spec fn reports(
        self,
        pre: StateView,
        side: ParitySide,
        payload: Seq<u8>,
        block: BlockInfo,
        post: StateView,
        events: Seq<MetricEvent>,
    ) -> bool {
        exists|result: Result<IngestedPayload, ParityError>, ingested: Seq<MetricEvent>| #[trigger]
            self.reports_via(pre, side, payload, block, post, events, result, ingested)
    }

    /// Counting a payload and ingesting it may take the state from `pre` to
    /// `post` with the metric updates.
    pub open spec fn takes_payload(
        self,
        pre: StateView,
        side: ParitySide,
        payload: Seq<u8>,
        block: BlockInfo,
        post: StateView,
        events: Seq<MetricEvent>,
    ) -> bool {
        &&& events.len() > 0
        &&& events[0] == MetricEvent::Increment(side.payload_counter(), 1)
        &&& self.reports(pre, side, payload, block, post, events.skip(1))
    }

    /// Processing a calldata payload may take the state from `pre` to `post`
    /// with the metric updates; an empty one is ignored.
    pub open spec fn takes_calldata(
        self,
        pre: StateView,
        side: ParitySide,
        payload: Seq<u8>,
        block: BlockInfo,
        post: StateView,
        events: Seq<MetricEvent>,
    ) -> bool {
        if payload.len() == 0 {
            post == pre && events == Seq::<MetricEvent>::empty()
        } else {
            self.takes_payload(pre, side, payload, block, post, events)
        }
    }

    /// Processing one blob whose decoding gave `decoded` may take the state
    /// from `pre` to `post` with the metric updates.
    pub open spec fn takes_blob_via(
        self,
        pre: StateView,
        side: ParitySide,
        blob: Seq<u8>,
        block: BlockInfo,
        post: StateView,
        events: Seq<MetricEvent>,
        decoded: Result<Vec<u8>, BlobDecodeError>,
    ) -> bool {
        &&& self.decodes_blob(blob, decoded)
        &&& match decoded {
            Ok(payload) => self.takes_payload(pre, side, payload@, block, post, events),
            Err(error) => post == pre && events == seq![
                MetricEvent::Increment(Counter::ExtractionErrors, 1),
            ],
        }
    }

    /// Processing one blob may take the state from `pre` to `post` with the
    /// metric updates; a blob that does not decode is skipped.
    pub open spec fn takes_blob(
        self,
        pre: StateView,
        side: ParitySide,
        blob: Seq<u8>,
        block: BlockInfo,
        post: StateView,
        events: Seq<MetricEvent>,
    ) -> bool {
        exists|decoded: Result<Vec<u8>, BlobDecodeError>| #[trigger]
            self.takes_blob_via(pre, side, blob, block, post, events, decoded)
    }

    /// Processing blobs in order may take the state from `pre` to `post` with
    /// the metric updates.
    pub open spec fn takes_blobs(
        self,
        pre: StateView,
        side: ParitySide,
        blobs: Seq<Vec<u8>>,
        block: BlockInfo,
        post: StateView,
        events: Seq<MetricEvent>,
    ) -> bool
        decreases blobs.len(),
    {
        if blobs.len() == 0 {
            post == pre && events == Seq::<MetricEvent>::empty()
        } else {
            exists|mid: StateView, earlier: Seq<MetricEvent>, last: Seq<MetricEvent>|
                {
                    &&& self.takes_blobs(
                        pre,
                        side,
                        blobs.drop_last(),
                        block,
                        mid,
                        earlier,
                    )
                    &&& #[trigger] self.takes_blob(mid, side, blobs.last()@, block, post, last)
                    &&& #[trigger] joined(events, earlier, last)
                }
        }
    }

    /// Processing an inbox transaction may take the state from `pre` to `post`
    /// with the metric updates.
    pub open spec fn takes_transaction(
        self,
        pre: StateView,
        side: ParitySide,
        tx: L1Transaction,
        block: BlockInfo,
        post: StateView,
        events: Seq<MetricEvent>,
    ) -> bool {
        if tx.blob_count() == 0 {
            self.takes_calldata(pre, side, tx.input@, block, post, events)
        } else {
            match tx.blobs {
                BlobReply::NoProvider => post == pre && events == seq![
                    MetricEvent::Increment(Counter::MissingBeacon, tx.blob_count() as u64),
                ],
                BlobReply::Failed => post == pre && events == seq![
                    MetricEvent::Increment(Counter::BlobFetchErrors, 1),
                ],
                BlobReply::Fetched(blobs) => self.takes_blobs(
                    pre,
                    side,
                    blobs@,
                    block,
                    post,
                    events,
                ),
            }
        }
    }

    /// Looking at any L1 transaction may take the state from `pre` to `post`
    /// with the metric updates; those to other addresses are ignored.
    pub open spec fn sees_transaction(
        self,
        config: ShadowParityMonitorConfig,
        pre: StateView,
        tx: L1Transaction,
        block: BlockInfo,
        post: StateView,
        events: Seq<MetricEvent>,
    ) -> bool {
        match inbox_side(config, tx.to) {
            Some(side) => self.takes_transaction(pre, side, tx, block, post, events),
            None => post == pre && events == Seq::<MetricEvent>::empty(),
        }
    }

    /// Looking at L1 transactions in order may take the state from `pre` to
    /// `post` with the metric updates.
    pub open spec fn sees_transactions(
        self,
        config: ShadowParityMonitorConfig,
        pre: StateView,
        txs: Seq<L1Transaction>,
        block: BlockInfo,
        post: StateView,
        events: Seq<MetricEvent>,
    ) -> bool
        decreases txs.len(),
    {
        if txs.len() == 0 {
            post == pre && events == Seq::<MetricEvent>::empty()
        } else {
            exists|mid: StateView, earlier: Seq<MetricEvent>, last: Seq<MetricEvent>|
                {
                    &&& self.sees_transactions(
                        config,
                        pre,
                        txs.drop_last(),
                        block,
                        mid,
                        earlier,
                    )
                    &&& #[trigger] self.sees_transaction(
                        config,
                        mid,
                        txs.last(),
                        block,
                        post,
                        last,
                    )
                    &&& #[trigger] joined(events, earlier, last)
                }
        }
    }

    /// The transactions of a block may lead to `seen` with the updates
    /// `seen_events` and eviction from there to `kept`; the rest of the pass
    /// over the block then is as given.
    pub open spec fn processes_via(
        self,
        config: ShadowParityMonitorConfig,
        pre: StateView,
        block_number: u64,
        block: L1Block,
        post: StateView,
        report: BlockReport,
        events: Seq<MetricEvent>,
        divergences: Seq<Divergence>,
        seen: StateView,
        seen_events: Seq<MetricEvent>,
        kept: StateView,
    ) -> bool {
        let compared = kept.after_compare();
        let info = block.info();
        &&& self.sees_transactions(config, pre, block.transactions@, info, seen, seen_events)
        &&& self.evicts(seen, info.number, info.timestamp, kept, report.evicted_channels)
        &&& report.stats == kept.compare_stats()
        &&& report.drift_warning == compared.drift_warning(block_number)
        &&& post == compared.after_drift_check()
        &&& divergences == kept.divergences(block_number)
        &&& events == seen_events + eviction_report(report.evicted_channels) + kept.compare_events(
            block_number,
        ) + compared.pending_events() + compared.alignment_events() + seq![
            MetricEvent::SetGauge(Gauge::LatestL1Block, block_number),
        ]
    }

    /// Processing an L1 block may take the state from `pre` to `post` with the
    /// report and the metric updates: its transactions are looked at in order,
    /// expired channels are evicted, and then everything paired is compared and
    /// what waits is reported.
    pub open spec fn processes(
        self,
        config: ShadowParityMonitorConfig,
        pre: StateView,
        block_number: u64,
        block: L1Block,
        post: StateView,
        report: BlockReport,
        events: Seq<MetricEvent>,
        divergences: Seq<Divergence>,
    ) -> bool {
        exists|seen: StateView, seen_events: Seq<MetricEvent>, kept: StateView| #[trigger]
            self.processes_via(
                config,
                pre,
                block_number,
                block,
                post,
                report,
                events,
                divergences,
                seen,
                seen_events,
                kept,
            )
    }
}

impl L1Block {
    /// The block as derivation looks at it.
    pub open spec fn info(self) -> BlockInfo {
        BlockInfo {
            hash: self.hash,
            number: self.number,
            parent_hash: self.parent_hash,
            timestamp: self.timestamp,
        }
    }
}

impl ShadowParityMonitor {
    /// Create a new shadow parity monitor.
    pub fn new(config: ShadowParityMonitorConfig) -> (monitor: Self)
        ensures
            monitor.config == config,
            monitor.state@ == StateView::empty(),
            monitor.metrics@ == Seq::<MetricEvent>::empty(),
            monitor.divergences@ == Seq::<Divergence>::empty(),
    {
        ShadowParityMonitor {
            config,
            state: ParityState::default(),
            metrics: BatcherServiceMetrics::default(),
            divergences: DivergenceLog::default(),
        }
    }

    /// The initial L1 block number to process: `start_depth` recent blocks,
    /// ending with the head, are scanned on startup, as far as the chain has
    /// them. The head itself is always scanned.
    pub fn initial_l1_block(head: u64, start_depth: u64) -> (block: u64)
        ensures
            block == cursor::first_block(head, start_depth),
    {
        head.saturating_sub(start_depth.saturating_sub(1))
    }

    /// Convert an L1 block to derivation block info.
    pub fn block_info(block: &L1Block) -> (info: BlockInfo)
        ensures
            info == block.info(),
    {
        BlockInfo {
            hash: block.hash,
            number: block.number,
            parent_hash: block.parent_hash,
            timestamp: block.timestamp,
        }
    }

    /// The side whose inbox received a transaction.
    pub fn inbox(&self, to: &Option<Address>) -> (side: Option<ParitySide>)
        ensures
            side == inbox_side(self.config, *to),
    {
        match to {
            Some(address) => {
                if normalized::same_hash_check(address, &self.config.canonical_inbox) {
                    Some(ParitySide::Canonical)
                } else if normalized::same_hash_check(address, &self.config.shadow_inbox) {
                    Some(ParitySide::Shadow)
                } else {
                    None
                }
            },
            None => None,
        }
    }

    /// Process one L1 block.
    pub fn process_l1_block<
        P: Fn(&[u8]) -> Result<Vec<Frame>, FrameParseError>,
        A: Fn(&Channel, &Frame, &BlockInfo) -> FrameOutcome,
        N: Fn(&Channel, u64) -> Option<NormalizedChannel>,
        T: Fn(u64) -> u64,
        D: Fn(&Vec<u8>) -> Result<Vec<u8>, BlobDecodeError>,
    >(
        &mut self,
        block_number: u64,
        block: &L1Block,
        codec: &DerivationCodec<P, A, N, T, D>,
    ) -> (report: BlockReport)
        requires
            codec.total(),
        ensures
            final(self).config == old(self).config,
            exists|events: Seq<MetricEvent>, divergences: Seq<Divergence>|
                #[trigger] codec.processes(
                    old(self).config,
                    old(self).state@,
                    block_number,
                    *block,
                    final(self).state@,
                    report,
                    events,
                    divergences,
                ) && final(self).metrics@ == old(self).metrics@ + events
                    && final(self).divergences@ == old(self).divergences@ + divergences,
    {
        let ghost config = self.config;
        let ghost logged = self.divergences;
        let ghost pre = self.state@;
        let ghost recorded = self.metrics@;
        let ghost txs = block.transactions@;
        let info = Self::block_info(block);
        let ghost mut seen_events: Seq<MetricEvent> = Seq::empty();
        let mut i: usize = 0;
        proof {
            assert(txs.take(0) =~= Seq::empty());
            assert(recorded =~= recorded + seen_events);
        }
        while i < block.transactions.len()
            invariant
                i <= block.transactions.len(),
                txs == block.transactions@,
                codec.total(),
                self.config == config,
                self.divergences == logged,
                self.metrics@ == recorded + seen_events,
                codec.sees_transactions(
                    config,
                    pre,
                    txs.take(i as int),
                    info,
                    self.state@,
                    seen_events,
                ),
            decreases block.transactions.len() - i,
        {
            let tx = &block.transactions[i];
            let ghost mid = self.state@;
            let ghost mid_metrics = self.metrics@;
            let ghost mut last: Seq<MetricEvent> = Seq::empty();
            match self.inbox(&tx.to) {
                Some(side) => {
                    self.process_transaction(side, tx, info, codec);
                    proof {
                        last =
                        choose|events: Seq<MetricEvent>| #[trigger]
                            codec.takes_transaction(mid, side, *tx, info, self.state@, events)
                                && self.metrics@ == mid_metrics + events;
                    }
                },
                None => {},
            }
            proof {
                assert(codec.sees_transaction(config, mid, *tx, info, self.state@, last));
                assert(txs.take(i + 1).drop_last() =~= txs.take(i as int));
                assert(txs.take(i + 1).last() == *tx);
                assert(self.metrics@ =~= recorded + (seen_events + last));
                assert(joined(seen_events + last, seen_events, last));
                seen_events = seen_events + last;
            }
            i = i + 1;
        }
        assert(txs.take(txs.len() as int) =~= txs);
        let ghost seen = self.state@;
        let evicted_channels = self.state.evict_expired_channels(
            info.number,
            info.timestamp,
            codec,
        );
        let ghost kept = self.state@;
        if evicted_channels > 0 {
            self.metrics.increment(Counter::EvictedChannels, evicted_channels as u64);
        }
        assert(self.metrics@ =~= recorded + seen_events + eviction_report(evicted_channels));
        let stats = self.state.compare_ready(
            block_number,
            &mut self.metrics,
            &mut self.divergences,
        );
        self.state.record_pending_metrics(&mut self.metrics);
        let ghost compared = self.state@;
        let drift_warning = self.state.warn_on_pending_drift(block_number);
        self.state.record_alignment_metric(&mut self.metrics);
        self.metrics.set(Gauge::LatestL1Block, block_number);
        let report = BlockReport { evicted_channels, stats, drift_warning };
        proof {
            let events = seen_events + eviction_report(evicted_channels) + kept.compare_events(
                block_number,
            ) + compared.pending_events() + compared.alignment_events() + seq![
                MetricEvent::SetGauge(Gauge::LatestL1Block, block_number),
            ];
            assert(self.metrics@ =~= recorded + events);
            assert(codec.processes_via(
                config,
                pre,
                block_number,
                *block,
                self.state@,
                report,
                events,
                kept.divergences(block_number),
                seen,
                seen_events,
                kept,
            ));
            assert(codec.processes(
                config,
                pre,
                block_number,
                *block,
                self.state@,
                report,
                events,
                kept.divergences(block_number),
            ));
        }
        report
    }

    /// Process one inbox transaction.
    pub fn process_transaction<
        P: Fn(&[u8]) -> Result<Vec<Frame>, FrameParseError>,
        A: Fn(&Channel, &Frame, &BlockInfo) -> FrameOutcome,
        N: Fn(&Channel, u64) -> Option<NormalizedChannel>,
        T: Fn(u64) -> u64,
        D: Fn(&Vec<u8>) -> Result<Vec<u8>, BlobDecodeError>,
    >(
        &mut self,
        side: ParitySide,
        tx: &L1Transaction,
        block_info: BlockInfo,
        codec: &DerivationCodec<P, A, N, T, D>,
    )
        requires
            codec.total(),
        ensures
            final(self).config == old(self).config,
            final(self).divergences == old(self).divergences,
            exists|events: Seq<MetricEvent>|
                #[trigger] codec.takes_transaction(
                    old(self).state@,
                    side,
                    *tx,
                    block_info,
                    final(self).state@,
                    events,
                ) && final(self).metrics@ == old(self).metrics@ + events,
    {
        let ghost pre = self.state@;
        let ghost recorded = self.metrics@;
        if !tx.carries_blobs() {
            self.process_calldata_payload(side, tx.input.as_slice(), block_info, codec);
            proof {
                let events = choose|events: Seq<MetricEvent>| #[trigger]
                    codec.takes_calldata(
                        pre,
                        side,
                        tx.input@,
                        block_info,
                        self.state@,
                        events,
                    ) && self.metrics@ == recorded + events;
                assert(codec.takes_transaction(pre, side, *tx, block_info, self.state@, events));
            }
            return ;
        }
        let blob_count: usize = match &tx.blob_versioned_hashes {
            Some(hashes) => hashes.len(),
            None => 0,
        };
        match &tx.blobs {
            BlobReply::NoProvider => {
                self.metrics.increment(Counter::MissingBeacon, blob_count as u64);
                proof {
                    let events = seq![
                        MetricEvent::Increment(Counter::MissingBeacon, blob_count as u64),
                    ];
                    assert(self.metrics@ =~= recorded + events);
                    assert(codec.takes_transaction(
                        pre,
                        side,
                        *tx,
                        block_info,
                        self.state@,
                        events,
                    ));
                }
            },
            BlobReply::Failed => {
                self.metrics.increment(Counter::BlobFetchErrors, 1);
                proof {
                    let events = seq![MetricEvent::Increment(Counter::BlobFetchErrors, 1)];
                    assert(self.metrics@ =~= recorded + events);
                    assert(codec.takes_transaction(
                        pre,
                        side,
                        *tx,
                        block_info,
                        self.state@,
                        events,
                    ));
                }
            },
            BlobReply::Fetched(blobs) => {
                self.process_blobs(side, blobs, block_info, codec);
                proof {
                    let events = choose|events: Seq<MetricEvent>| #[trigger]
                        codec.takes_blobs(pre, side, blobs@, block_info, self.state@, events)
                            && self.metrics@ == recorded + events;
                    assert(codec.takes_transaction(
                        pre,
                        side,
                        *tx,
                        block_info,
                        self.state@,
                        events,
                    ));
                }
            },
        }
    }

    /// Process fetched blobs in order.
    fn process_blobs<
        P: Fn(&[u8]) -> Result<Vec<Frame>, FrameParseError>,
        A: Fn(&Channel, &Frame, &BlockInfo) -> FrameOutcome,
        N: Fn(&Channel, u64) -> Option<NormalizedChannel>,
        T: Fn(u64) -> u64,
        D: Fn(&Vec<u8>) -> Result<Vec<u8>, BlobDecodeError>,
    >(
        &mut self,
        side: ParitySide,
        blobs: &Vec<Vec<u8>>,
        block_info: BlockInfo,
        codec: &DerivationCodec<P, A, N, T, D>,
    )
        requires
            codec.total(),
        ensures
            final(self).config == old(self).config,
            final(self).divergences == old(self).divergences,
            exists|events: Seq<MetricEvent>|
                #[trigger] codec.takes_blobs(
                    old(self).state@,
                    side,
                    blobs@,
                    block_info,
                    final(self).state@,
                    events,
                ) && final(self).metrics@ == old(self).metrics@ + events,
    {
        let ghost config = self.config;
        let ghost logged = self.divergences;
        let ghost pre = self.state@;
        let ghost recorded = self.metrics@;
        let ghost mut events: Seq<MetricEvent> = Seq::empty();
        let mut i: usize = 0;
        proof {
            assert(blobs@.take(0) =~= Seq::empty());
            assert(recorded =~= recorded + events);
        }
        while i < blobs.len()
            invariant
                i <= blobs.len(),
                codec.total(),
                self.config == config,
                self.divergences == logged,
                self.metrics@ == recorded + events,
                codec.takes_blobs(
                    pre,
                    side,
                    blobs@.take(i as int),
                    block_info,
                    self.state@,
                    events,
                ),
            decreases blobs.len() - i,
        {
            let blob = &blobs[i];
            let ghost mid = self.state@;
            let ghost mid_metrics = self.metrics@;
            let ghost mut last: Seq<MetricEvent> = Seq::empty();
            let decoded = codec.decode(blob);
            let ghost outcome = decoded;
            match decoded {
                Ok(payload) => {
                    self.process_blob_payload(side, &payload, block_info, codec);
                    proof {
                        last =
                        choose|events: Seq<MetricEvent>| #[trigger]
                            codec.takes_payload(
                                mid,
                                side,
                                payload@,
                                block_info,
                                self.state@,
                                events,
                            ) && self.metrics@ == mid_metrics + events;
                    }
                },
                Err(_) => {
                    self.metrics.increment(Counter::ExtractionErrors, 1);
                    proof {
                        last = seq![MetricEvent::Increment(Counter::ExtractionErrors, 1)];
                        assert(self.metrics@ =~= mid_metrics + last);
                    }
                },
            }
            proof {
                assert(codec.takes_blob_via(
                    mid,
                    side,
                    blob@,
                    block_info,
                    self.state@,
                    last,
                    outcome,
                ));
                assert(codec.takes_blob(mid, side, blob@, block_info, self.state@, last));
                assert(blobs@.take(i + 1).drop_last() =~= blobs@.take(i as int));
                assert(blobs@.take(i + 1).last()@ == blob@);
                assert(self.metrics@ =~= recorded + (events + last));
                assert(joined(events + last, events, last));
                events = events + last;
            }
            i = i + 1;
        }
        assert(blobs@.take(blobs@.len() as int) =~= blobs@);
    }

    /// Process one calldata payload.
    pub fn process_calldata_payload<
        P: Fn(&[u8]) -> Result<Vec<Frame>, FrameParseError>,
        A: Fn(&Channel, &Frame, &BlockInfo) -> FrameOutcome,
        N: Fn(&Channel, u64) -> Option<NormalizedChannel>,
        T: Fn(u64) -> u64,
        D: Fn(&Vec<u8>) -> Result<Vec<u8>, BlobDecodeError>,
    >(
        &mut self,
        side: ParitySide,
        payload: &[u8],
        block_info: BlockInfo,
        codec: &DerivationCodec<P, A, N, T, D>,
    )
        requires
            codec.total(),
        ensures
            final(self).config == old(self).config,
            final(self).divergences == old(self).divergences,
            exists|events: Seq<MetricEvent>|
                #[trigger] codec.takes_calldata(
                    old(self).state@,
                    side,
                    payload@,
                    block_info,
                    final(self).state@,
                    events,
                ) && final(self).metrics@ == old(self).metrics@ + events,
    {
        let ghost pre = self.state@;
        let ghost recorded = self.metrics@;
        if payload.len() == 0 {
            proof {
                let events = Seq::<MetricEvent>::empty();
                assert(codec.takes_calldata(pre, side, payload@, block_info, self.state@, events));
                assert(self.metrics@ =~= recorded + events);
            }
            return ;
        }
        self.take_payload(side, payload, block_info, codec);
        proof {
            let events = choose|events: Seq<MetricEvent>| #[trigger]
                codec.takes_payload(pre, side, payload@, block_info, self.state@, events)
                    && self.metrics@ == recorded + events;
            assert(codec.takes_calldata(pre, side, payload@, block_info, self.state@, events));
        }
    }

    /// Process one decoded blob payload.
    pub fn process_blob_payload<
        P: Fn(&[u8]) -> Result<Vec<Frame>, FrameParseError>,
        A: Fn(&Channel, &Frame, &BlockInfo) -> FrameOutcome,
        N: Fn(&Channel, u64) -> Option<NormalizedChannel>,
        T: Fn(u64) -> u64,
        D: Fn(&Vec<u8>) -> Result<Vec<u8>, BlobDecodeError>,
    >(
        &mut self,
        side: ParitySide,
        payload: &Vec<u8>,
        block_info: BlockInfo,
        codec: &DerivationCodec<P, A, N, T, D>,
    )
        requires
            codec.total(),
        ensures
            final(self).config == old(self).config,
            final(self).divergences == old(self).divergences,
            exists|events: Seq<MetricEvent>|
                #[trigger] codec.takes_payload(
                    old(self).state@,
                    side,
                    payload@,
                    block_info,
                    final(self).state@,
                    events,
                ) && final(self).metrics@ == old(self).metrics@ + events,
    {
        self.take_payload(side, payload.as_slice(), block_info, codec);
    }

    /// Counts a payload and ingests it.
    fn take_payload<
        P: Fn(&[u8]) -> Result<Vec<Frame>, FrameParseError>,
        A: Fn(&Channel, &Frame, &BlockInfo) -> FrameOutcome,
        N: Fn(&Channel, u64) -> Option<NormalizedChannel>,
        T: Fn(u64) -> u64,
        D: Fn(&Vec<u8>) -> Result<Vec<u8>, BlobDecodeError>,
    >(
        &mut self,
        side: ParitySide,
        payload: &[u8],
        block_info: BlockInfo,
        codec: &DerivationCodec<P, A, N, T, D>,
    )
        requires
            codec.total(),
        ensures
            final(self).config == old(self).config,
            final(self).divergences == old(self).divergences,
            exists|events: Seq<MetricEvent>|
                #[trigger] codec.takes_payload(
                    old(self).state@,
                    side,
                    payload@,
                    block_info,
                    final(self).state@,
                    events,
                ) && final(self).metrics@ == old(self).metrics@ + events,
    {
        let ghost pre = self.state@;
        let ghost recorded = self.metrics@;
        side.increment_payloads(&mut self.metrics);
        let ghost counted = self.metrics@;
        self.ingest_payload(side, payload, block_info, codec);
        proof {
            let reported = choose|events: Seq<MetricEvent>| #[trigger]
                codec.reports(pre, side, payload@, block_info, self.state@, events)
                    && self.metrics@ == counted + events;
            let events = seq![MetricEvent::Increment(side.payload_counter(), 1)] + reported;
            assert(events.skip(1) =~= reported);
            assert(self.metrics@ =~= recorded + events);
            assert(codec.takes_payload(pre, side, payload@, block_info, self.state@, events));
        }
    }

    /// Parse and ingest frame data from one DA payload.
    #[verifier::spinoff_prover]
    #[verifier::rlimit(30)]
    pub fn ingest_payload<
        P: Fn(&[u8]) -> Result<Vec<Frame>, FrameParseError>,
        A: Fn(&Channel, &Frame, &BlockInfo) -> FrameOutcome,
        N: Fn(&Channel, u64) -> Option<NormalizedChannel>,
        T: Fn(u64) -> u64,
        D: Fn(&Vec<u8>) -> Result<Vec<u8>, BlobDecodeError>,
    >(
        &mut self,
        side: ParitySide,
        payload: &[u8],
        block_info: BlockInfo,
        codec: &DerivationCodec<P, A, N, T, D>,
    )
        requires
            codec.total(),
        ensures
            final(self).config == old(self).config,
            final(self).divergences == old(self).divergences,
            exists|events: Seq<MetricEvent>|
                #[trigger] codec.reports(
                    old(self).state@,
                    side,
                    payload@,
                    block_info,
                    final(self).state@,
                    events,
                ) && final(self).metrics@ == old(self).metrics@ + events,
    {
        let ghost pre = self.state@;
        let ghost recorded = self.metrics@;
        let result = self.state.ingest_payload(
            side,
            payload,
            block_info,
            codec,
            &mut self.metrics,
        );
        let ghost ingested = choose|events: Seq<MetricEvent>| #[trigger]
            codec.ingests(
                pre.side(side),
                payload@,
                block_info,
                self.state@.side(side),
                result,
                events,
            ) && self.metrics@ == recorded + events;
        self.report_ingested(side, &result);
        proof {
            let events = ingested + ingest_report(side, result);
            assert(self.metrics@ =~= recorded + events);
            assert(codec.reports_via(
                pre,
                side,
                payload@,
                block_info,
                self.state@,
                events,
                result,
                ingested,
            ));
            assert(codec.reports(pre, side, payload@, block_info, self.state@, events));
        }
    }

    /// Reports what ingesting a payload gave.
    pub fn report_ingested(
        &mut self,
        side: ParitySide,
        result: &Result<IngestedPayload, ParityError>,
    )
        ensures
            final(self).config == old(self).config,
            final(self).divergences == old(self).divergences,
            final(self).state == old(self).state,
            final(self).metrics@ == old(self).metrics@ + ingest_report(side, *result),
    {
        let ghost recorded = self.metrics@;
        match result {
            Ok(decoded) => {
                if decoded.complete_channels > 0 {
                    side.increment_complete_channels(
                        decoded.complete_channels as u64,
                        &mut self.metrics,
                    );
                    side.increment_batches(decoded.batches as u64, &mut self.metrics);
                    side.increment_l2_blocks(decoded.l2_blocks as u64, &mut self.metrics);
                }
            },
            Err(_) => {
                self.metrics.increment(Counter::ExtractionErrors, 1);
            },
        }
        assert(self.metrics@ =~= recorded + ingest_report(side, *result));
    }
}

} // verus!
