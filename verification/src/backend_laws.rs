//! Laws of the construction of proving backends: what each step asks for, in
//! terms of the configuration, and what a worker configures.

use crate::builder;
use crate::builder::{
    BuildAction, BuildErrorView, BuildOutcome, BuildStage, FulfillmentStrategy, NetworkMode,
    SuccinctBackendBuildError, SuccinctBackendBuildResult, SuccinctBackendBuilder,
    SuccinctBackendKind, SuccinctNetworkFulfillmentStrategy, SuccinctNetworkRequester,
};
use crate::rpc_url;
use crate::text;
use crate::zk_host;
use crate::zk_host::{
    Sp1FulfillmentStrategyArg, WorkerArgs, ZkBackendArg, ZkProofClaimType, ZkProofTypeArg,
};
use url::Url;
use vstd::prelude::*;
use vstd::string::*;

verus! {

/// The result is one that a construction step may give.
pub open spec fn may_give(
    builder: SuccinctBackendBuilder,
    stage: BuildStage,
    outcome: BuildOutcome,
    result: SuccinctBackendBuildResult<BuildAction>,
) -> bool {
    builder::build_view(result) == builder.step(stage, outcome)
}

/// All four endpoints are configured.
pub open spec fn has_endpoints(builder: SuccinctBackendBuilder) -> bool {
    &&& builder.l1_rpc is Some
    &&& builder.l1_beacon_rpc is Some
    &&& builder.l2_rpc is Some
    &&& builder.base_consensus_rpc is Some
}

/// A text is given that is not just white space.
pub open spec fn is_given(value: Option<String>) -> bool {
    value is Some && text::trimmed(value->0@).len() > 0
}

/// Once the signer of a network backend is there, the construction asks for a
/// network prover. Its mode is the main network exactly if the configured
/// fulfillment strategy is the auction, and the reserved network exactly if the
/// strategy is hosted or reserved.
pub proof fn law_network_mode_follows_the_strategy(
    builder: SuccinctBackendBuilder,
    result: SuccinctBackendBuildResult<BuildAction>,
)
    requires
        builder.backend == SuccinctBackendKind::Network,
        builder.network.requester is Some,
        may_give(builder, BuildStage::NetworkSigner, BuildOutcome::Completed, result),
    ensures
        result is Ok,
        result->Ok_0 is CreateNetworkProver,
        result->Ok_0->CreateNetworkProver_0 == NetworkMode::Mainnet
            <==> builder.network.fulfillment_strategy
            == SuccinctNetworkFulfillmentStrategy::Auction,
        result->Ok_0->CreateNetworkProver_0 == NetworkMode::Reserved
            <==> builder.network.fulfillment_strategy
            == SuccinctNetworkFulfillmentStrategy::Hosted || builder.network.fulfillment_strategy
            == SuccinctNetworkFulfillmentStrategy::Reserved,
{
}

/// The mode that serves a strategy is the main network exactly for the auction.
pub proof fn law_only_auctions_use_the_main_network(strategy: SuccinctNetworkFulfillmentStrategy)
    ensures
        strategy.mode() == NetworkMode::Mainnet <==> strategy
            == SuccinctNetworkFulfillmentStrategy::Auction,
        strategy.mode() == NetworkMode::Reserved <==> strategy
            != SuccinctNetworkFulfillmentStrategy::Auction,
{
}

/// The signer is made from the configured requester: of the same kind and with
/// the same credential.
pub proof fn law_signer_is_the_configured_requester(
    builder: SuccinctBackendBuilder,
    result: SuccinctBackendBuildResult<BuildAction>,
)
    requires
        builder.backend == SuccinctBackendKind::Network,
        builder.network.requester is Some,
        may_give(builder, BuildStage::DataFetcher, BuildOutcome::Completed, result),
    ensures
        result is Ok,
        result->Ok_0 is CreateSigner,
        match (builder.network.requester->0, result->Ok_0->CreateSigner_0) {
            (
                SuccinctNetworkRequester::LocalPrivateKey(configured),
                SuccinctNetworkRequester::LocalPrivateKey(used),
            ) => used@ == configured@,
            (
                SuccinctNetworkRequester::AwsKmsKeyId(configured),
                SuccinctNetworkRequester::AwsKmsKeyId(used),
            ) => used@ == configured@,
            _ => false,
        },
{
}

/// The data fetcher is created for the configured endpoints, each in its own
/// place: the L1 node, the L1 beacon node, the L2 node and the consensus node.
pub proof fn law_data_fetcher_uses_the_endpoints(
    builder: SuccinctBackendBuilder,
    stage: BuildStage,
    result: SuccinctBackendBuildResult<BuildAction>,
)
    requires
        has_endpoints(builder),
        builder.backend == SuccinctBackendKind::Network && stage == BuildStage::ProvingKeys || (
        builder.backend == SuccinctBackendKind::Cluster && stage == BuildStage::Requested
            && is_given(builder.cluster.cluster_rpc_endpoint)),
        may_give(builder, stage, BuildOutcome::Completed, result),
    ensures
        result is Ok,
        result->Ok_0 is CreateDataFetcher,
        ({
            let rpcs = result->Ok_0->CreateDataFetcher_0;
            &&& rpc_url::url_text(rpcs.l1_rpc) == rpc_url::url_text(builder.l1_rpc->0)
            &&& rpcs.l1_beacon_rpc is Some
            &&& rpc_url::url_text(rpcs.l1_beacon_rpc->0) == rpc_url::url_text(
                builder.l1_beacon_rpc->0,
            )
            &&& rpc_url::url_text(rpcs.l2_rpc) == rpc_url::url_text(builder.l2_rpc->0)
            &&& rpc_url::url_text(rpcs.l2_node_rpc) == rpc_url::url_text(
                builder.base_consensus_rpc->0,
            )
        }),
{
}

/// The endpoints that a cluster or network backend requires are the configured
/// ones, each in its own place. Where one is missing, the first missing one of
/// L1 node, L1 beacon node, L2 node and consensus node is named.
pub proof fn law_required_endpoints_are_the_configured_ones(builder: SuccinctBackendBuilder)
    ensures
        builder.rpcs() is Ok <==> has_endpoints(builder),
        has_endpoints(builder) ==> {
            let rpcs = builder.rpcs()->Ok_0;
            &&& rpcs.rpc_config.l1_rpc == rpc_url::url_text(builder.l1_rpc->0)
            &&& rpcs.rpc_config.l1_beacon_rpc == Some(rpc_url::url_text(builder.l1_beacon_rpc->0))
            &&& rpcs.rpc_config.l2_rpc == rpc_url::url_text(builder.l2_rpc->0)
            &&& rpcs.rpc_config.l2_node_rpc == rpc_url::url_text(builder.base_consensus_rpc->0)
            &&& rpcs.base_consensus_url == rpc_url::url_text(builder.base_consensus_rpc->0)
            &&& rpcs.l1_node_url == rpc_url::url_text(builder.l1_rpc->0)
        },
        !has_endpoints(builder) ==> {
            &&& builder.rpcs()->Err_0 is MissingConfig
            &&& builder.rpcs()->Err_0->MissingConfig_backend == builder.backend
            &&& builder.rpcs()->Err_0->MissingConfig_field == (if builder.l1_rpc is None {
                "L1_NODE_ADDRESS"@
            } else if builder.l1_beacon_rpc is None {
                "L1_BEACON_ADDRESS"@
            } else if builder.l2_rpc is None {
                "L2_NODE_ADDRESS"@
            } else {
                "BASE_CONSENSUS_ADDRESS"@
            })
        },
{
}

/// A finished network backend has the configured consensus and L1 nodes, window,
/// strategy and limits, and its timeout is the configured hours in seconds.
pub proof fn law_network_backend_has_the_configuration(
    builder: SuccinctBackendBuilder,
    result: SuccinctBackendBuildResult<BuildAction>,
)
    requires
        builder.backend == SuccinctBackendKind::Network,
        has_endpoints(builder),
        builder.network.requester is Some,
        builder.network.timeout_hours * 3600 <= u64::MAX,
        may_give(builder, BuildStage::NetworkProver, BuildOutcome::Completed, result),
    ensures
        result is Ok,
        result->Ok_0 is FinishNetwork,
        ({
            let plan = result->Ok_0->FinishNetwork_0;
            let strategy = builder.network.fulfillment_strategy;
            &&& plan.base_consensus_url@ == rpc_url::url_text(builder.base_consensus_rpc->0)
            &&& plan.l1_node_url@ == rpc_url::url_text(builder.l1_rpc->0)
            &&& plan.default_sequence_window == builder.default_sequence_window
            &&& plan.fulfillment_strategy == FulfillmentStrategy::Auction <==> strategy
                == SuccinctNetworkFulfillmentStrategy::Auction
            &&& plan.fulfillment_strategy == FulfillmentStrategy::Hosted <==> strategy
                == SuccinctNetworkFulfillmentStrategy::Hosted
            &&& plan.fulfillment_strategy == FulfillmentStrategy::Reserved <==> strategy
                == SuccinctNetworkFulfillmentStrategy::Reserved
            &&& plan.timeout_secs == builder.network.timeout_hours * 3600
            &&& plan.range_cycle_limit == builder.range_cycle_limit
            &&& plan.range_gas_limit == builder.range_gas_limit
        }),
{
}

/// A finished cluster backend has the configured consensus and L1 nodes, window
/// and limits, the cluster endpoint, bucket and region without surrounding white
/// space, and its timeout is the configured hours in seconds.
pub proof fn law_cluster_backend_has_the_configuration(
    builder: SuccinctBackendBuilder,
    result: SuccinctBackendBuildResult<BuildAction>,
)
    requires
        builder.backend == SuccinctBackendKind::Cluster,
        has_endpoints(builder),
        is_given(builder.cluster.cluster_rpc_endpoint),
        is_given(builder.cluster.s3_bucket),
        is_given(builder.cluster.s3_region),
        builder.cluster.timeout_hours * 3600 <= u64::MAX,
        may_give(builder, BuildStage::ClusterClient, BuildOutcome::Completed, result),
    ensures
        result is Ok,
        result->Ok_0 is FinishCluster,
        ({
            let plan = result->Ok_0->FinishCluster_0;
            &&& plan.base_consensus_url@ == rpc_url::url_text(builder.base_consensus_rpc->0)
            &&& plan.l1_node_url@ == rpc_url::url_text(builder.l1_rpc->0)
            &&& plan.default_sequence_window == builder.default_sequence_window
            &&& plan.cluster_rpc@ == text::trimmed(builder.cluster.cluster_rpc_endpoint->0@)
            &&& plan.bucket@ == text::trimmed(builder.cluster.s3_bucket->0@)
            &&& plan.region@ == text::trimmed(builder.cluster.s3_region->0@)
            &&& plan.timeout_secs == builder.cluster.timeout_hours * 3600
            &&& plan.range_cycle_limit == builder.range_cycle_limit
            &&& plan.range_gas_limit == builder.range_gas_limit
        }),
{
}

/// The artifact store of a cluster backend is the configured bucket in the
/// configured region, used with 32 concurrent transfers, and the cluster is
/// reached at the configured endpoint.
pub proof fn law_cluster_clients_use_the_configuration(
    builder: SuccinctBackendBuilder,
    stage: BuildStage,
    result: SuccinctBackendBuildResult<BuildAction>,
)
    requires
        builder.backend == SuccinctBackendKind::Cluster,
        is_given(builder.cluster.cluster_rpc_endpoint),
        is_given(builder.cluster.s3_bucket),
        is_given(builder.cluster.s3_region),
        may_give(builder, stage, BuildOutcome::Completed, result),
    ensures
        stage == BuildStage::DataFetcher ==> {
            &&& result is Ok
            &&& result->Ok_0 matches BuildAction::CreateDownloadClient { region }
            &&& region@ == text::trimmed(builder.cluster.s3_region->0@)
        },
        stage == BuildStage::DownloadClient ==> {
            &&& result is Ok
            &&& result->Ok_0 matches BuildAction::CreateArtifactClient {
                region,
                bucket,
                concurrency,
            }
            &&& region@ == text::trimmed(builder.cluster.s3_region->0@)
            &&& bucket@ == text::trimmed(builder.cluster.s3_bucket->0@)
            &&& concurrency == 32
        },
        stage == BuildStage::ArtifactClient ==> {
            &&& result is Ok
            &&& result->Ok_0 matches BuildAction::ConnectCluster { endpoint }
            &&& endpoint@ == text::trimmed(builder.cluster.cluster_rpc_endpoint->0@)
        },
{
}

/// A cluster setting that is absent or just white space is named as missing: the
/// endpoint before anything is done, the bucket and then the region once the
/// data fetcher is there.
pub proof fn law_blank_cluster_settings_are_missing(
    builder: SuccinctBackendBuilder,
    stage: BuildStage,
    result: SuccinctBackendBuildResult<BuildAction>,
)
    requires
        builder.backend == SuccinctBackendKind::Cluster,
        has_endpoints(builder),
        may_give(builder, stage, BuildOutcome::Completed, result),
        stage == BuildStage::Requested && !is_given(builder.cluster.cluster_rpc_endpoint) || (stage
            == BuildStage::DataFetcher && (!is_given(builder.cluster.s3_bucket) || !is_given(
            builder.cluster.s3_region,
        ))),
    ensures
        result is Err,
        result->Err_0 matches SuccinctBackendBuildError::MissingConfig { backend, field } && backend
            == SuccinctBackendKind::Cluster && field@ == (if stage == BuildStage::Requested {
            "SP1_CLUSTER_API_ENDPOINT"@
        } else if !is_given(builder.cluster.s3_bucket) {
            "CLI_S3_BUCKET"@
        } else {
            "CLI_S3_REGION"@
        }),
{
}

/// Without a requester the network backend is not finished: the private key is
/// named as missing once the data fetcher is there.
pub proof fn law_missing_requester_is_named(
    builder: SuccinctBackendBuilder,
    result: SuccinctBackendBuildResult<BuildAction>,
)
    requires
        builder.backend == SuccinctBackendKind::Network,
        builder.network.requester is None,
        may_give(builder, BuildStage::DataFetcher, BuildOutcome::Completed, result),
    ensures
        result is Err,
        result->Err_0 matches SuccinctBackendBuildError::MissingConfig { backend, field } && backend
            == SuccinctBackendKind::Network && field@ == "NETWORK_PRIVATE_KEY"@,
{
}

/// A timeout that does not fit is refused when the backend is finished, under
/// the name of the setting.
pub proof fn law_oversized_timeouts_are_refused(
    builder: SuccinctBackendBuilder,
    result: SuccinctBackendBuildResult<BuildAction>,
)
    requires
        has_endpoints(builder),
        ({
            ||| builder.backend == SuccinctBackendKind::Network && builder.network.requester is Some
                && builder.network.timeout_hours * 3600 > u64::MAX && may_give(
                builder,
                BuildStage::NetworkProver,
                BuildOutcome::Completed,
                result,
            )
            ||| builder.backend == SuccinctBackendKind::Cluster && is_given(
                builder.cluster.cluster_rpc_endpoint,
            ) && is_given(builder.cluster.s3_bucket) && is_given(builder.cluster.s3_region)
                && builder.cluster.timeout_hours * 3600 > u64::MAX && may_give(
                builder,
                BuildStage::ClusterClient,
                BuildOutcome::Completed,
                result,
            )
        }),
    ensures
        result is Err,
        result->Err_0 matches SuccinctBackendBuildError::TimeoutOverflow { field } && field@ == (
        if builder.backend == SuccinctBackendKind::Network {
            "SP1_NETWORK_TIMEOUT_HOURS"@
        } else {
            "SP1_CLUSTER_TIMEOUT_HOURS"@
        }),
{
}

/// The backends without external services are finished at once, each as itself.
pub proof fn law_local_backends_finish_at_once(
    builder: SuccinctBackendBuilder,
    result: SuccinctBackendBuildResult<BuildAction>,
)
    requires
        may_give(builder, BuildStage::Requested, BuildOutcome::Completed, result),
    ensures
        builder.backend == SuccinctBackendKind::Mock <==> (result is Ok && result->Ok_0
            is FinishMock),
        builder.backend == SuccinctBackendKind::DryRun <==> (result is Ok && result->Ok_0
            is FinishDryRun),
        builder.backend == SuccinctBackendKind::Network && has_endpoints(builder) ==> result is Ok
            && result->Ok_0 is ComputeProvingKeys,
{
}

/// A failed operation fails the construction with the error of that operation
/// and the message that it failed with. Which signer error it is depends on the
/// kind of requester.
pub proof fn law_failures_keep_their_message(
    builder: SuccinctBackendBuilder,
    stage: BuildStage,
    message: String,
    result: SuccinctBackendBuildResult<BuildAction>,
)
    requires
        stage.admits(builder.backend, BuildOutcome::Failed(message)),
        may_give(builder, stage, BuildOutcome::Failed(message), result),
    ensures
        result is Err,
        stage == BuildStage::ProvingKeys ==> (
        result->Err_0 matches SuccinctBackendBuildError::ProvingKeys { source } && source@
            == message@),
        stage == BuildStage::DataFetcher ==> (
        result->Err_0 matches SuccinctBackendBuildError::DataFetcher { source } && source@
            == message@),
        stage == BuildStage::ClusterClient ==> (
        result->Err_0 matches SuccinctBackendBuildError::ClusterClient { message: kept } && kept@
            == message@),
        stage == BuildStage::NetworkSigner && builder.network.requester is Some
            && builder.network.requester->0 is LocalPrivateKey ==> (
        result->Err_0 matches SuccinctBackendBuildError::LocalNetworkSigner { source } && source@
            == message@),
        stage == BuildStage::NetworkSigner && builder.network.requester is Some
            && builder.network.requester->0 is AwsKmsKeyId ==> (
        result->Err_0 matches SuccinctBackendBuildError::KmsNetworkSigner { source } && source@
            == message@),
{
}

/// A cancelled operation gives up at every stage: nothing is asked for and
/// nothing failed.
pub proof fn law_cancellation_gives_up(
    builder: SuccinctBackendBuilder,
    stage: BuildStage,
    result: SuccinctBackendBuildResult<BuildAction>,
)
    requires
        may_give(builder, stage, BuildOutcome::Cancelled, result),
    ensures
        result is Ok,
        result->Ok_0 is GiveUp,
{
}

/// The stages of each construction. The backends without external services have
/// none but the request; only computing keys, creating a data fetcher, creating
/// a cluster client and creating a signer can fail.
pub proof fn law_stages_of_each_backend(
    backend: SuccinctBackendKind,
    stage: BuildStage,
    message: String,
)
    ensures
        stage.admits(backend, BuildOutcome::Completed) <==> {
            ||| stage == BuildStage::Requested
            ||| backend == SuccinctBackendKind::Cluster && (stage is DataFetcher || stage
                is DownloadClient || stage is ArtifactClient || stage is ClusterClient)
            ||| backend == SuccinctBackendKind::Network && (stage is ProvingKeys || stage
                is DataFetcher || stage is NetworkSigner || stage is NetworkProver)
        },
        stage.admits(backend, BuildOutcome::Cancelled) <==> stage.admits(
            backend,
            BuildOutcome::Completed,
        ),
        stage.admits(backend, BuildOutcome::Failed(message)) <==> stage.admits(
            backend,
            BuildOutcome::Completed,
        ) && (stage == BuildStage::ProvingKeys || stage == BuildStage::DataFetcher || stage
            == BuildStage::ClusterClient || stage == BuildStage::NetworkSigner),
{
}

/// Each action awaits the outcome of its own operation, and what ends the
/// construction awaits nothing.
pub proof fn law_actions_await_their_own_outcome(action: BuildAction)
    ensures
        action is ComputeProvingKeys <==> action@.awaits() == Some(BuildStage::ProvingKeys),
        action is CreateDataFetcher <==> action@.awaits() == Some(BuildStage::DataFetcher),
        action is CreateDownloadClient <==> action@.awaits() == Some(BuildStage::DownloadClient),
        action is CreateArtifactClient <==> action@.awaits() == Some(BuildStage::ArtifactClient),
        action is ConnectCluster <==> action@.awaits() == Some(BuildStage::ClusterClient),
        action is CreateSigner <==> action@.awaits() == Some(BuildStage::NetworkSigner),
        action is CreateNetworkProver <==> action@.awaits() == Some(BuildStage::NetworkProver),
        action is GiveUp || action is FinishMock || action is FinishDryRun || action
            is FinishCluster || action is FinishNetwork <==> action@.awaits() is None,
{
}

/// An error about a missing setting begins with the name of the setting and ends
/// with the name of the backend; one about a timeout begins with the name of the
/// setting; that of a cluster client ends with the message. The texts of other
/// failures are the same whatever their cause, so that they show none of it.
pub proof fn law_error_texts_name_the_setting(
    error: BuildErrorView,
    other: BuildErrorView,
)
    ensures
        error matches BuildErrorView::MissingConfig { backend, field } ==> {
            &&& error.text().len() >= field.len() + backend.text().len()
            &&& error.text().take(field.len() as int) == field
            &&& error.text().skip(error.text().len() - backend.text().len()) == backend.text()
        },
        error matches BuildErrorView::TimeoutOverflow { field } ==> {
            &&& error.text().len() >= field.len()
            &&& error.text().take(field.len() as int) == field
        },
        error matches BuildErrorView::ClusterClient { message } ==> {
            &&& error.text().len() >= message.len()
            &&& error.text().skip(error.text().len() - message.len()) == message
        },
        error is ProvingKeys && other is ProvingKeys ==> error.text() == other.text(),
        error is DataFetcher && other is DataFetcher ==> error.text() == other.text(),
        error is KmsNetworkSigner && other is KmsNetworkSigner ==> error.text() == other.text(),
        error is LocalNetworkSigner && other is LocalNetworkSigner ==> error.text()
            == other.text(),
{
    match error {
        BuildErrorView::MissingConfig { backend, field } => {
            assert(error.text().take(field.len() as int) =~= field);
            assert(error.text().skip(error.text().len() - backend.text().len())
                =~= backend.text());
        },
        BuildErrorView::TimeoutOverflow { field } => {
            assert(error.text().take(field.len() as int) =~= field);
        },
        BuildErrorView::ClusterClient { message } => {
            assert(error.text().skip(error.text().len() - message.len()) =~= message);
        },
        _ => {},
    }
}

/// A copied URL is there exactly if the given one is, and reads the same.
pub open spec fn same_url(copy: Option<Url>, given: Option<Url>) -> bool {
    &&& copy is Some <==> given is Some
    &&& given is Some ==> rpc_url::url_text(copy->0) == rpc_url::url_text(given->0)
}

/// A copied text is there exactly if the given one is, and reads the same.
pub open spec fn same_text(copy: Option<String>, given: Option<String>) -> bool {
    &&& copy is Some <==> given is Some
    &&& given is Some ==> copy->0@ == given->0@
}

/// The builder of a worker has the arguments of the worker, each in its own
/// place.
pub proof fn law_worker_configures_its_arguments(
    args: WorkerArgs,
    builder: SuccinctBackendBuilder,
)
    requires
        zk_host::configures(args, builder),
    ensures
        builder.backend == SuccinctBackendKind::Mock <==> args.backend == ZkBackendArg::Mock,
        builder.backend == SuccinctBackendKind::DryRun <==> args.backend == ZkBackendArg::DryRun,
        builder.backend == SuccinctBackendKind::Cluster <==> args.backend == ZkBackendArg::Cluster,
        builder.backend == SuccinctBackendKind::Network <==> args.backend == ZkBackendArg::Network,
        same_url(builder.base_consensus_rpc, args.base_consensus_address),
        same_url(builder.l1_rpc, args.l1_node_address),
        same_url(builder.l1_beacon_rpc, args.l1_beacon_address),
        same_url(builder.l2_rpc, args.l2_node_address),
        builder.default_sequence_window == args.default_sequence_window,
        same_text(builder.cluster.cluster_rpc_endpoint, args.sp1_cluster_api_endpoint),
        same_text(builder.cluster.s3_bucket, args.cli_s3_bucket),
        same_text(builder.cluster.s3_region, args.cli_s3_region),
        builder.cluster.timeout_hours == args.sp1_cluster_timeout_hours,
        builder.network.timeout_hours == args.sp1_network_timeout_hours,
        builder.network.fulfillment_strategy == SuccinctNetworkFulfillmentStrategy::Auction
            <==> args.sp1_fulfillment_strategy == Sp1FulfillmentStrategyArg::Auction,
        builder.network.fulfillment_strategy == SuccinctNetworkFulfillmentStrategy::Hosted
            <==> args.sp1_fulfillment_strategy == Sp1FulfillmentStrategyArg::Hosted,
        builder.network.fulfillment_strategy == SuccinctNetworkFulfillmentStrategy::Reserved
            <==> args.sp1_fulfillment_strategy == Sp1FulfillmentStrategyArg::Reserved,
        builder.range_cycle_limit == args.range_cycle_limit,
        builder.range_gas_limit == args.range_gas_limit,
        builder.network.requester is Some <==> args.network_private_key is Some,
        args.network_private_key is Some && args.use_kms_requester ==> (
        builder.network.requester->0 matches SuccinctNetworkRequester::AwsKmsKeyId(id) && id@
            == args.network_private_key->0@),
        args.network_private_key is Some && !args.use_kms_requester ==> (
        builder.network.requester->0 matches SuccinctNetworkRequester::LocalPrivateKey(key) && key@
            == args.network_private_key->0@),
{
}

/// A worker claims proofs of the type that it was told.
pub proof fn law_worker_claims_its_proof_type(proof_type: ZkProofTypeArg)
    ensures
        proof_type.claim() == ZkProofClaimType::Compressed <==> proof_type
            == ZkProofTypeArg::Compressed,
        proof_type.claim() == ZkProofClaimType::SnarkGroth16 <==> proof_type
            == ZkProofTypeArg::SnarkGroth16,
{
}

/// The network that a worker proves on follows from its arguments alone: with a
/// key, the main network exactly if the auction was selected.
pub proof fn law_worker_selects_the_network(
    args: WorkerArgs,
    builder: SuccinctBackendBuilder,
    result: SuccinctBackendBuildResult<BuildAction>,
)
    requires
        zk_host::configures(args, builder),
        args.backend == ZkBackendArg::Network,
        args.network_private_key is Some,
        may_give(builder, BuildStage::NetworkSigner, BuildOutcome::Completed, result),
    ensures
        result is Ok,
        result->Ok_0 is CreateNetworkProver,
        result->Ok_0->CreateNetworkProver_0 == NetworkMode::Mainnet
            <==> args.sp1_fulfillment_strategy == Sp1FulfillmentStrategyArg::Auction,
{
    law_worker_configures_its_arguments(args, builder);
    law_network_mode_follows_the_strategy(builder, result);
}

/// A requester is shown by its kind.
pub proof fn law_requesters_are_shown_by_kind(requester: SuccinctNetworkRequester)
    ensures
        requester is LocalPrivateKey ==> requester.redacted() == "LocalPrivateKey(<redacted>)"@,
        requester is AwsKmsKeyId ==> requester.redacted() == "AwsKmsKeyId(<redacted>)"@,
{
}

/// The names of the backends, as arguments and in messages.
pub proof fn law_backends_have_their_names(argument: ZkBackendArg, kind: SuccinctBackendKind)
    ensures
        argument == ZkBackendArg::Mock ==> argument.text() == "mock"@,
        argument == ZkBackendArg::DryRun ==> argument.text() == "dry_run"@,
        argument == ZkBackendArg::Cluster ==> argument.text() == "cluster"@,
        argument == ZkBackendArg::Network ==> argument.text() == "network"@,
        kind == SuccinctBackendKind::Mock ==> kind.text() == "mock"@,
        kind == SuccinctBackendKind::DryRun ==> kind.text() == "dry_run"@,
        kind == SuccinctBackendKind::Cluster ==> kind.text() == "cluster"@,
        kind == SuccinctBackendKind::Network ==> kind.text() == "network"@,
{
}

/// The error about a proof type names the backend between two fixed texts.
pub proof fn law_unsupported_proof_type_names_the_backend(error: zk_host::UnsupportedProofType)
    ensures
        error.text().len() == "ZK_BACKEND="@.len() + error.backend.text().len()
            + " currently supports PROOF_TYPE=compressed only"@.len(),
        error.text().skip("ZK_BACKEND="@.len() as int).take(error.backend.text().len() as int)
            == error.backend.text(),
{
    let named = error.text().skip("ZK_BACKEND="@.len() as int).take(
        error.backend.text().len() as int,
    );
    assert(named =~= error.backend.text());
}

} // verus!
