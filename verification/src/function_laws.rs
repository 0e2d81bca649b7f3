//! Laws of single functions: what every result that a function may return says
//! about its arguments.

use crate::backend_laws;
use crate::builder::{
    BuildAction, BuildOutcome, BuildStage, NetworkMode, SuccinctBackendBuildError,
    SuccinctBackendBuildResult, SuccinctBackendBuilder, SuccinctBackendKind,
    SuccinctNetworkFulfillmentStrategy,
};
use crate::channel::{BlockInfo, Channel, ChannelId};
use crate::comparison;
use crate::comparison::L2MismatchReason;
use crate::content_laws;
use crate::cursor::{CursorAction, CursorPhase, L1Cursor};
use crate::ingest_laws;
use crate::l2_queue;
use crate::metrics::Counter;
use crate::monitor::{L1Block, L1Transaction, ShadowParityMonitor};
use crate::normalized;
use crate::normalized::{
    Address, B256, NormalizedBatch, NormalizedL2Block, ParityComparator, ParityComparison,
};
use crate::parity_laws;
use crate::parity_state::{ParitySide, ParityState};
use crate::report_laws;
use crate::rpc_url;
use crate::side_state::ParitySideState;
use crate::source_rpc_proxy;
use crate::source_rpc_proxy::{
    RequestsHashStrippingSourceRpcProxy, RequestsHashStrippingSourceRpcProxyConfig, UpstreamReply,
};
use crate::submission;
use crate::submission::{SubmissionError, SubmissionInput};
use crate::text;
use crate::upgrade_signal;
use crate::upgrade_signal::{
    BaseUpgrade, UpgradeSignalError, UpgradeSignalRuntimeValidation, UpgradeSignalSchedule,
};
use crate::zk_host;
use crate::zk_host::{
    ClientSettings, HostSettings, Sp1FulfillmentStrategyArg, UnsupportedProofType, Worker,
    WorkerPlan, WorkerStart, ZkBackendArg, ZkProofClaimType, ZkProofTypeArg, ZkVm,
};
use jsonrpsee::types::ErrorObjectOwned;
use serde_json::Value;
use url::Url;
use vstd::prelude::*;
use vstd::string::*;

verus! {

/// Whether two blocks match is whether their L1 origins, their transaction
/// counts and their transaction hashes at every position agree.
pub proof fn law_content_matches(left: NormalizedL2Block, right: NormalizedL2Block, same: bool)
    requires
        call_ensures(NormalizedL2Block::content_matches, (&left, &right), same),
    ensures
        same <==> (left.epoch_num == right.epoch_num && left.tx_hashes@.len()
            == right.tx_hashes@.len() && forall|i: int|
            0 <= i < left.tx_hashes@.len() ==> #[trigger] left.tx_hashes@[i]
                == right.tx_hashes@[i]),
{
}

/// Hashes are the same exactly if every byte is.
pub proof fn law_same_hash(left: B256, right: B256, same: bool)
    requires
        call_ensures(normalized::same_hash, (&left, &right), same),
    ensures
        same <==> forall|i: int| 0 <= i < 32 ==> #[trigger] left[i] == right[i],
{
    if forall|i: int| 0 <= i < 32 ==> #[trigger] left[i] == right[i] {
        assert(left =~= right);
    }
}

/// Whether two batches match is whether they agree in every field.
pub proof fn law_batch_matches(left: NormalizedBatch, right: NormalizedBatch, same: bool)
    requires
        call_ensures(NormalizedBatch::matches, (&left, &right), same),
    ensures
        same <==> {
            &&& left.kind == right.kind
            &&& left.parent_hash == right.parent_hash
            &&& left.epoch_hash == right.epoch_hash
            &&& left.parent_check == right.parent_check
            &&& left.l1_origin_check == right.l1_origin_check
            &&& left.chain_id == right.chain_id
            &&& left.origin_bits is Some <==> right.origin_bits is Some
            &&& left.origin_bits is Some ==> left.origin_bits->0@ == right.origin_bits->0@
            &&& left.start_timestamp == right.start_timestamp
            &&& left.end_timestamp == right.end_timestamp
            &&& left.start_epoch_num == right.start_epoch_num
            &&& left.end_epoch_num == right.end_epoch_num
            &&& left.block_count == right.block_count
            &&& left.tx_counts@ == right.tx_counts@
            &&& left.tx_hashes@ == right.tx_hashes@
        },
{
    content_laws::law_batch_says_every_field(left, right);
}

/// Lists of batches match exactly if they are equally long and the batches at
/// every position say the same.
pub proof fn law_compare(
    left: &[NormalizedBatch],
    right: &[NormalizedBatch],
    comparison: ParityComparison,
)
    requires
        call_ensures(ParityComparator::compare, (left, right), comparison),
    ensures
        comparison.is_match <==> (left@.len() == right@.len() && forall|i: int|
            0 <= i < left@.len() ==> (#[trigger] left@[i])@ == right@[i]@),
{
    content_laws::law_lists_match_position_by_position(left@, right@);
}

/// The reason of a mismatch is the first of origin and transaction count in
/// which the blocks differ, else the hashes, and it has its own counter.
pub proof fn law_mismatch_reason(
    canonical: NormalizedL2Block,
    shadow: NormalizedL2Block,
    reason: L2MismatchReason,
    counter: Counter,
)
    requires
        call_ensures(comparison::mismatch_reason, (&canonical, &shadow), reason),
        call_ensures(L2MismatchReason::counter, (reason,), counter),
    ensures
        counter == (if canonical.epoch_num != shadow.epoch_num {
            Counter::L2BlockOriginMismatches
        } else if canonical.tx_hashes@.len() != shadow.tx_hashes@.len() {
            Counter::L2BlockTxCountMismatches
        } else {
            Counter::L2BlockTxHashMismatches
        }),
{
}

/// A new channel has the given identifier and opening block, no frames, and is
/// not complete.
pub proof fn law_new_channel(
    id: ChannelId,
    block: BlockInfo,
    channel: Channel,
    ready: bool,
    number: u64,
)
    requires
        call_ensures(Channel::new, (id, block), channel),
        call_ensures(Channel::is_ready, (&channel,), ready),
        call_ensures(Channel::open_block_number, (&channel,), number),
    ensures
        channel.id == id,
        channel.open_block == block,
        channel.frames@.len() == 0,
        !ready,
        number == block.number,
{
}

/// The complete channels of a side are listed once each, as far as they are
/// there, in the order in which they were first seen.
pub proof fn law_ready_channels(side: ParitySideState, ids: Vec<ChannelId>, id: ChannelId)
    requires
        side@.well_formed(),
        call_ensures(ParitySideState::ready_channels, (&side,), ids),
    ensures
        ids@.contains(id) <==> side.channels@.contains_key(id) && side.channels@[id].ready,
        ids@.no_duplicates(),
        forall|i: int, j: int|
            0 <= i < j < ids@.len() ==> side.channel_order@.index_of(#[trigger] ids@[i])
                < side.channel_order@.index_of(#[trigger] ids@[j]),
{
    ingest_laws::law_complete_channels_are_drained_as_first_seen(side@, id);
}

/// The oldest timestamp of a side is the smallest one that has a queue, and there
/// is none exactly if the side has no queues.
pub proof fn law_oldest_l2_timestamp(side: ParitySideState, oldest: Option<u64>, t: u64)
    requires
        call_ensures(ParitySideState::oldest_l2_timestamp, (&side,), oldest),
        side.l2_blocks@.contains_key(t),
    ensures
        oldest is Some,
        side.l2_blocks@.contains_key(oldest->0),
        oldest->0 <= t,
{
    assert(side@.l2_blocks.contains_key(t));
    if oldest is None {
        assert(Map::<u64, Seq<NormalizedL2Block>>::empty().contains_key(t));
    }
    report_laws::law_oldest_is_the_smallest_timestamp(side@.l2_blocks);
    assert(side@.l2_blocks.contains_key(oldest->0));
}

/// The pending counts and the delta of batches are the queue lengths and their
/// absolute difference.
pub proof fn law_pending_batches(
    state: ParityState,
    canonical: usize,
    shadow: usize,
    delta: usize,
)
    requires
        call_ensures(ParitySideState::pending_batches, (&state.canonical,), canonical),
        call_ensures(ParitySideState::pending_batches, (&state.shadow,), shadow),
        call_ensures(ParityState::pending_batch_delta, (&state,), delta),
    ensures
        canonical == state.canonical.batches@.len(),
        shadow == state.shadow.batches@.len(),
        canonical >= shadow ==> delta == canonical - shadow,
        canonical < shadow ==> delta == shadow - canonical,
{
}

/// The delta of blocks is the absolute difference of the pending counts.
pub proof fn law_pending_l2_blocks(
    state: ParityState,
    canonical: usize,
    shadow: usize,
    delta: usize,
)
    requires
        call_ensures(ParitySideState::pending_l2_blocks, (&state.canonical,), canonical),
        call_ensures(ParitySideState::pending_l2_blocks, (&state.shadow,), shadow),
        call_ensures(ParityState::pending_l2_block_delta, (&state,), delta),
    ensures
        canonical >= shadow ==> delta == canonical - shadow,
        canonical < shadow ==> delta == shadow - canonical,
{
}

/// Blocks that wait on a side at one timestamp only are all that is pending.
pub proof fn law_pending_l2_blocks_of_one_timestamp(
    side: ParitySideState,
    timestamp: u64,
    count: usize,
)
    requires
        call_ensures(ParitySideState::pending_l2_blocks, (&side,), count),
        side.l2_blocks@.contains_key(timestamp),
        side.l2_blocks@[timestamp]@.len() <= usize::MAX,
        forall|t: u64| t != timestamp ==> !#[trigger] side.l2_blocks@.contains_key(t),
    ensures
        count == side.l2_blocks@[timestamp]@.len(),
{
    let queues = side@.l2_blocks;
    assert forall|t: u64| t != timestamp implies #[trigger] l2_queue::waiting_at(queues, t).len()
        == 0 by {
        assert(!side.l2_blocks@.contains_key(t));
    }
    parity_laws::law_total_of_one_timestamp(queues, timestamp);
}

/// Alignment is known once something was compared, and the state is aligned
/// exactly if the deciding comparison matched and nothing of its kind waits.
pub proof fn law_is_aligned(
    state: ParityState,
    aligned: Option<bool>,
    canonical: usize,
    shadow: usize,
)
    requires
        call_ensures(ParityState::is_aligned, (&state,), aligned),
        call_ensures(ParitySideState::pending_l2_blocks, (&state.canonical,), canonical),
        call_ensures(ParitySideState::pending_l2_blocks, (&state.shadow,), shadow),
    ensures
        aligned is None <==> state.last_l2_result is None && state.last_result is None,
        state.last_l2_result is Some ==> (aligned == Some(true) <==> state.last_l2_result == Some(
            true,
        ) && canonical == 0 && shadow == 0),
        state.last_l2_result is None && state.last_result is Some ==> (aligned == Some(true)
            <==> state.last_result == Some(true) && state.canonical.batches@.len() == 0
            && state.shadow.batches@.len() == 0),
{
}

/// The first block to scan leaves the configured number of blocks up to the
/// head, or all there are; the head itself is always scanned.
pub proof fn law_initial_l1_block(head: u64, start_depth: u64, block: u64)
    requires
        call_ensures(ShadowParityMonitor::initial_l1_block, (head, start_depth), block),
    ensures
        block <= head,
        start_depth <= 1 ==> block == head,
        1 < start_depth <= head + 1 ==> head - block + 1 == start_depth,
        start_depth > head + 1 ==> block == 0,
{
}

/// Derivation sees the block's own hash, number, parent hash and timestamp.
pub proof fn law_block_info(block: L1Block, info: BlockInfo)
    requires
        call_ensures(ShadowParityMonitor::block_info, (&block,), info),
    ensures
        info.hash == block.hash,
        info.number == block.number,
        info.parent_hash == block.parent_hash,
        info.timestamp == block.timestamp,
{
}

/// The inbox of a transaction is told by its receiver alone, the canonical one
/// first.
pub proof fn law_inbox(
    monitor: ShadowParityMonitor,
    to: Option<Address>,
    side: Option<ParitySide>,
)
    requires
        call_ensures(ShadowParityMonitor::inbox, (&monitor, &to), side),
    ensures
        side == Some(ParitySide::Canonical) <==> to == Some(monitor.config.canonical_inbox),
        side == Some(ParitySide::Shadow) <==> to == Some(monitor.config.shadow_inbox)
            && monitor.config.shadow_inbox != monitor.config.canonical_inbox,
{
}

/// A transaction carries blobs exactly if it lists the hash of one.
pub proof fn law_carries_blobs(tx: L1Transaction, carries: bool)
    requires
        call_ensures(L1Transaction::carries_blobs, (&tx,), carries),
    ensures
        carries <==> tx.blob_versioned_hashes is Some && tx.blob_versioned_hashes->0@.len() > 0,
{
}

/// The pending action of a cursor follows from what it waits for.
pub proof fn law_cursor_action(cursor: L1Cursor, action: CursorAction)
    requires
        call_ensures(L1Cursor::action, (&cursor,), action),
    ensures
        action == (match cursor.phase {
            CursorPhase::Idle => CursorAction::Start,
            CursorPhase::Locating => CursorAction::FetchHead,
            CursorPhase::ReadingHead(_) => CursorAction::FetchHead,
            CursorPhase::LocatePause => CursorAction::WaitForPoll,
            CursorPhase::HeadPause(_) => CursorAction::WaitForPoll,
            CursorPhase::Processing(next, _) => CursorAction::ProcessBlock(next),
            CursorPhase::Stopped => CursorAction::Stop,
        }),
{
}

/// A network backend asks for a prover on the main network exactly if its
/// strategy is the auction, and on the reserved network otherwise.
pub proof fn law_build_network_prover(
    builder: SuccinctBackendBuilder,
    result: SuccinctBackendBuildResult<BuildAction>,
)
    requires
        builder.backend == SuccinctBackendKind::Network,
        builder.network.requester is Some,
        call_ensures(
            SuccinctBackendBuilder::build,
            (&builder, BuildStage::NetworkSigner, &BuildOutcome::Completed),
            result,
        ),
    ensures
        result is Ok,
        result->Ok_0 is CreateNetworkProver,
        result->Ok_0->CreateNetworkProver_0 == NetworkMode::Mainnet
            <==> builder.network.fulfillment_strategy
            == SuccinctNetworkFulfillmentStrategy::Auction,
{
    backend_laws::law_network_mode_follows_the_strategy(builder, result);
}

/// The mode of a strategy is the main network exactly for the auction.
pub proof fn law_network_mode(strategy: SuccinctNetworkFulfillmentStrategy, mode: NetworkMode)
    requires
        call_ensures(SuccinctNetworkFulfillmentStrategy::network_mode, (&strategy,), mode),
    ensures
        mode == NetworkMode::Mainnet <==> strategy == SuccinctNetworkFulfillmentStrategy::Auction,
{
}

/// A timeout in hours is 3600 times as many seconds, or refused under the name
/// of its setting where that does not fit. Each backend has its own timeout.
pub proof fn law_timeouts(
    builder: SuccinctBackendBuilder,
    cluster: SuccinctBackendBuildResult<u64>,
    network: SuccinctBackendBuildResult<u64>,
)
    requires
        call_ensures(SuccinctBackendBuilder::cluster_timeout, (&builder,), cluster),
        call_ensures(SuccinctBackendBuilder::network_timeout, (&builder,), network),
    ensures
        cluster is Ok <==> builder.cluster.timeout_hours * 3600 <= u64::MAX,
        cluster is Ok ==> cluster->Ok_0 == builder.cluster.timeout_hours * 3600,
        cluster is Err ==> (
        cluster->Err_0 matches SuccinctBackendBuildError::TimeoutOverflow { field } && field@
            == "SP1_CLUSTER_TIMEOUT_HOURS"@),
        network is Ok <==> builder.network.timeout_hours * 3600 <= u64::MAX,
        network is Ok ==> network->Ok_0 == builder.network.timeout_hours * 3600,
        network is Err ==> (
        network->Err_0 matches SuccinctBackendBuildError::TimeoutOverflow { field } && field@
            == "SP1_NETWORK_TIMEOUT_HOURS"@),
{
}

/// A required URL is the given one, or is named as missing for the backend.
pub proof fn law_required_url(
    builder: SuccinctBackendBuilder,
    value: Option<Url>,
    field: &'static str,
    result: SuccinctBackendBuildResult<&Url>,
)
    requires
        call_ensures(SuccinctBackendBuilder::required_url, (&builder, &value, field), result),
    ensures
        result is Ok <==> value is Some,
        result is Ok ==> *result->Ok_0 == value->0,
        result is Err ==> (
        result->Err_0 matches SuccinctBackendBuildError::MissingConfig { backend, field: named }
            && backend == builder.backend && named@ == field@),
{
}

/// A required text is the given one without white space around it; where nothing
/// is left it is named as missing.
pub proof fn law_required_cluster_value(
    builder: SuccinctBackendBuilder,
    value: Option<String>,
    field: &'static str,
    result: SuccinctBackendBuildResult<&str>,
)
    requires
        call_ensures(
            SuccinctBackendBuilder::required_cluster_value,
            (&builder, &value, field),
            result,
        ),
    ensures
        result is Ok <==> value is Some && text::trimmed(value->0@).len() > 0,
        result is Ok ==> result->Ok_0@ == text::trimmed(value->0@),
        result is Err ==> (
        result->Err_0 matches SuccinctBackendBuildError::MissingConfig { backend, field: named }
            && backend == SuccinctBackendKind::Cluster && named@ == field@),
{
}

/// The settings of a host are those of its worker, each in its own place.
pub proof fn law_host_settings(worker: Worker, id: String, settings: HostSettings)
    requires
        call_ensures(Worker::host_settings, (&worker, id), settings),
    ensures
        settings.worker_id@ == id@,
        settings.zk_vms@.len() == 1,
        settings.zk_vms@[0] == ZkVm::Sp1,
        settings.proof_type == ZkProofClaimType::Compressed <==> worker.args.proof_type
            == ZkProofTypeArg::Compressed,
        settings.job_discovery_poll_interval_ms == worker.args.job_discovery_poll_interval_ms,
        settings.job_discovery_lock_duration_seconds
            == worker.args.job_discovery_lock_duration_seconds,
        settings.job_discovery_max_concurrent_jobs == worker.args.job_discovery_max_concurrent_jobs,
        settings.heartbeat.interval_secs == worker.args.proof_generator_heartbeat_interval_secs,
        settings.heartbeat.lock_duration_seconds
            == worker.args.proof_generator_heartbeat_lock_duration_seconds,
        settings.heartbeat.max_consecutive_failures
            == worker.args.proof_generator_max_consecutive_heartbeat_failures,
{
}

/// The client of a worker uses the endpoint and the timeout of the worker.
pub proof fn law_client_settings(worker: Worker, settings: ClientSettings)
    requires
        call_ensures(Worker::client_settings, (&worker,), settings),
    ensures
        settings.endpoint@ == worker.args.prover_service_endpoint@,
        settings.request_timeout_secs == worker.args.prover_service_request_timeout_secs,
{
}

/// A worker connects exactly if its backend was built and it was not cancelled
/// since; a backend that was not built comes first.
pub proof fn law_start(built: bool, cancelled: bool, start: WorkerStart)
    requires
        call_ensures(Worker::start, (built, cancelled), start),
    ensures
        start == (if !built {
            WorkerStart::InitializationCancelled
        } else if cancelled {
            WorkerStart::StartupCancelled
        } else {
            WorkerStart::Connect
        }),
{
}

/// A worker plans a backend exactly if that can generate the proof type: every
/// type without an external backend, else compressed proofs only. The plan
/// claims that type and has the arguments of the worker, each in its own place.
pub proof fn law_plan(worker: Worker, plan: Result<WorkerPlan, UnsupportedProofType>)
    requires
        call_ensures(Worker::plan, (&worker,), plan),
    ensures
        plan is Ok <==> worker.args.backend == ZkBackendArg::Mock || worker.args.backend
            == ZkBackendArg::DryRun || worker.args.proof_type == ZkProofTypeArg::Compressed,
        plan is Err ==> plan->Err_0.backend == worker.args.backend,
        plan is Ok ==> {
            let args = worker.args;
            let builder = plan->Ok_0.backend_builder;
            &&& plan->Ok_0.proof_type == ZkProofClaimType::Compressed <==> args.proof_type
                == ZkProofTypeArg::Compressed
            &&& builder.backend == SuccinctBackendKind::Network <==> args.backend
                == ZkBackendArg::Network
            &&& builder.backend == SuccinctBackendKind::Cluster <==> args.backend
                == ZkBackendArg::Cluster
            &&& builder.backend == SuccinctBackendKind::Mock <==> args.backend
                == ZkBackendArg::Mock
            &&& backend_laws::same_url(builder.base_consensus_rpc, args.base_consensus_address)
            &&& backend_laws::same_url(builder.l1_rpc, args.l1_node_address)
            &&& backend_laws::same_url(builder.l1_beacon_rpc, args.l1_beacon_address)
            &&& backend_laws::same_url(builder.l2_rpc, args.l2_node_address)
            &&& builder.default_sequence_window == args.default_sequence_window
            &&& backend_laws::same_text(
                builder.cluster.cluster_rpc_endpoint,
                args.sp1_cluster_api_endpoint,
            )
            &&& backend_laws::same_text(builder.cluster.s3_bucket, args.cli_s3_bucket)
            &&& backend_laws::same_text(builder.cluster.s3_region, args.cli_s3_region)
            &&& builder.cluster.timeout_hours == args.sp1_cluster_timeout_hours
            &&& builder.network.timeout_hours == args.sp1_network_timeout_hours
            &&& builder.network.fulfillment_strategy == SuccinctNetworkFulfillmentStrategy::Auction
                <==> args.sp1_fulfillment_strategy == Sp1FulfillmentStrategyArg::Auction
            &&& builder.network.requester is Some <==> args.network_private_key is Some
            &&& builder.range_cycle_limit == args.range_cycle_limit
            &&& builder.range_gas_limit == args.range_gas_limit
        },
{
    if plan is Ok {
        backend_laws::law_worker_configures_its_arguments(
            worker.args,
            plan->Ok_0.backend_builder,
        );
    }
}

/// The identifier of a worker is a fixed prefix and then its UUID.
pub proof fn law_worker_id(uuid: &str, id: String)
    requires
        call_ensures(zk_host::worker_id, (uuid,), id),
    ensures
        id@.len() == 8 + uuid@.len(),
        id@.take(8) == seq!['z', 'k', '-', 'h', 'o', 's', 't', '-'],
        id@.skip(8) == uuid@,
{
    reveal_strlit("zk-host-");
    assert(id@.take(8) =~= seq!['z', 'k', '-', 'h', 'o', 's', 't', '-']);
    assert(id@.skip(8) =~= uuid@);
}

/// A proxy listens on the local host, at the configured port or, without one, at
/// the available one, and tells that port.
pub proof fn law_listen(
    config: RequestsHashStrippingSourceRpcProxyConfig,
    available: u16,
    proxy: RequestsHashStrippingSourceRpcProxy,
    port: u16,
)
    requires
        call_ensures(
            RequestsHashStrippingSourceRpcProxy::listen,
            (&config, available),
            proxy,
        ),
        call_ensures(RequestsHashStrippingSourceRpcProxy::rpc_port, (&proxy,), port),
    ensures
        proxy.ip@ == seq![127u8, 0, 0, 1],
        port == proxy.port,
        config.rpc_port is Some ==> port == config.rpc_port->0,
        config.rpc_port is None ==> port == available,
{
}

/// The answer for a block has no requests hash, and every other field as the
/// upstream had it in its result.
pub proof fn law_block_by_number_answer(
    reply: UpstreamReply,
    answer: Result<Value, ErrorObjectOwned>,
    name: Seq<char>,
)
    requires
        call_ensures(
            RequestsHashStrippingSourceRpcProxy::block_by_number_answer,
            (&reply,),
            answer,
        ),
    ensures
        answer is Ok <==> reply is Answered && source_rpc_proxy::field(
            reply->Answered_0,
            "error"@,
        ) is None && source_rpc_proxy::field(reply->Answered_0, "result"@) is Some,
        answer is Ok ==> {
            let block = source_rpc_proxy::field(reply->Answered_0, "result"@)->0;
            &&& source_rpc_proxy::field(answer->Ok_0, "requestsHash"@) is None
            &&& name != "requestsHash"@ ==> source_rpc_proxy::field(answer->Ok_0, name)
                == source_rpc_proxy::field(block, name)
        },
        answer is Err ==> source_rpc_proxy::error_code(answer->Err_0) == -32603
            && source_rpc_proxy::error_data(answer->Err_0) is None,
{
}

/// The answer for the latest block number is the result of the upstream as it
/// is, where it has one and no error.
pub proof fn law_block_number_answer(
    reply: UpstreamReply,
    answer: Result<Value, ErrorObjectOwned>,
)
    requires
        call_ensures(
            RequestsHashStrippingSourceRpcProxy::block_number_answer,
            (&reply,),
            answer,
        ),
    ensures
        answer is Ok <==> reply is Answered && source_rpc_proxy::field(
            reply->Answered_0,
            "error"@,
        ) is None && source_rpc_proxy::field(reply->Answered_0, "result"@) is Some,
        answer is Ok ==> Some(answer->Ok_0) == source_rpc_proxy::field(
            reply->Answered_0,
            "result"@,
        ),
        answer is Err ==> source_rpc_proxy::error_code(answer->Err_0) == -32603
            && source_rpc_proxy::error_data(answer->Err_0) is None,
{
}

/// A schedule is refused, with the chain that was asked for, exactly if an
/// activation admin address is required but not known and some signal is a
/// positive one about Beryl.
pub proof fn law_validate_schedule(
    validation: UpgradeSignalRuntimeValidation,
    chain_id: u64,
    schedule: UpgradeSignalSchedule,
    result: Result<(), UpgradeSignalError>,
)
    requires
        call_ensures(
            UpgradeSignalRuntimeValidation::validate_schedule,
            (&validation, chain_id, &schedule),
            result,
        ),
    ensures
        result is Err <==> validation.require_activation_admin_for_beryl
            && validation.activation_admin_address is None && exists|i: int|
            0 <= i < schedule.signals@.len() && (#[trigger] schedule.signals@[i]).hardfork_id
                == BaseUpgrade::Beryl
                && schedule.signals@[i].positive_activation_timestamp is Some,
        result is Err ==> result->Err_0 == (UpgradeSignalError::MissingActivationAdminAddress {
            chain_id,
        }),
{
    upgrade_signal::law_unguarded_beryl_is_rejected(validation, schedule);
}

/// The validation contexts: a disabled one checks nothing, one with an address
/// requires and knows it, and the fail-closed one requires it without knowing.
pub proof fn law_validation_contexts(
    address: Option<Address>,
    disabled: UpgradeSignalRuntimeValidation,
    known: UpgradeSignalRuntimeValidation,
    closed: UpgradeSignalRuntimeValidation,
)
    requires
        call_ensures(UpgradeSignalRuntimeValidation::disabled, (), disabled),
        call_ensures(
            UpgradeSignalRuntimeValidation::with_activation_admin_address,
            (address,),
            known,
        ),
        call_ensures(UpgradeSignalRuntimeValidation::fail_closed, (), closed),
    ensures
        !disabled.require_activation_admin_for_beryl,
        disabled.activation_admin_address is None,
        known.require_activation_admin_for_beryl,
        known.activation_admin_address == address,
        closed.require_activation_admin_for_beryl,
        closed.activation_admin_address is None,
{
}

/// A side is read as calldata where only calldata is given and as a blob of the
/// right length where only a blob is given; the bytes are those that the
/// hexadecimal digits stand for. With neither or both it is refused by name.
pub proof fn law_submission_input(
    calldata_hex: Option<String>,
    blob_hex: Option<String>,
    side: &str,
    result: Result<SubmissionInput, SubmissionError>,
)
    requires
        call_ensures(submission::submission_input, (calldata_hex, blob_hex, side), result),
    ensures
        result is Ok ==> (calldata_hex is Some <==> blob_hex is None),
        result is Ok && calldata_hex is Some ==> (
        result->Ok_0 matches SubmissionInput::Calldata(bytes) && submission::hex_decodes(
            text::without_hex_prefixes(calldata_hex->0@),
            Ok(bytes@),
        )),
        result is Ok && blob_hex is Some ==> (result->Ok_0 matches SubmissionInput::Blob(bytes)
            && bytes@.len() == 131072 && submission::hex_decodes(
            text::without_hex_prefixes(blob_hex->0@),
            Ok(bytes@),
        )),
        calldata_hex is None && blob_hex is None ==> {
            &&& result is Err
            &&& result->Err_0 matches SubmissionError::MissingInput { side: named }
            &&& named@ == side@
        },
        calldata_hex is Some && blob_hex is Some ==> {
            &&& result is Err
            &&& result->Err_0 matches SubmissionError::ConflictingInput { side: named }
            &&& named@ == side@
        },
{
}

/// The decimal text of a number reads back as that number.
pub proof fn law_decimal_text(value: u64, shown: String)
    requires
        call_ensures(text::decimal_text, (value,), shown),
    ensures
        text::read_decimal(shown@) == value,
        shown@[0] == '0' ==> value == 0,
{
    text::law_decimal_reads_back(value as nat);
}

/// The URL of a proxy shows its address and port.
pub proof fn law_rpc_url(proxy: RequestsHashStrippingSourceRpcProxy, url: Url)
    requires
        call_ensures(RequestsHashStrippingSourceRpcProxy::rpc_url, (&proxy,), url),
        proxy.port != 80,
    ensures
        ({
            let end = ":"@ + text::decimal(proxy.port as nat) + "/"@;
            let shown = rpc_url::url_text(url);
            shown.len() >= end.len() && shown.skip(shown.len() - end.len()) == end
        }),
{
    let end = ":"@ + text::decimal(proxy.port as nat) + "/"@;
    let shown = rpc_url::url_text(url);
    assert(shown.skip(shown.len() - end.len()) =~= end);
}

} // verus!
