//! Construction of Succinct backends.

use base_batcher_prover::builder::{
    BuildAction, BuildOutcome, BuildStage, FulfillmentStrategy, NetworkMode,
    SuccinctBackendBuildError, SuccinctBackendBuilder, SuccinctBackendKind,
    SuccinctClusterBackendConfig, SuccinctNetworkBackendConfig,
    SuccinctNetworkFulfillmentStrategy, SuccinctNetworkRequester,
};
use url::Url;

fn url(text: &str) -> Option<Url> {
    Some(Url::parse(text).unwrap())
}

fn builder(backend: SuccinctBackendKind) -> SuccinctBackendBuilder {
    SuccinctBackendBuilder {
        backend,
        base_consensus_rpc: url("http://consensus:9545"),
        l1_rpc: url("http://l1:8545"),
        l1_beacon_rpc: url("http://beacon:5052"),
        l2_rpc: url("http://l2:8545"),
        default_sequence_window: 50,
        cluster: SuccinctClusterBackendConfig {
            cluster_rpc_endpoint: Some(" http://cluster:50051\n".to_owned()),
            s3_bucket: Some("\u{3000}bucket ".to_owned()),
            s3_region: Some("us-east-1".to_owned()),
            timeout_hours: 24,
        },
        network: SuccinctNetworkBackendConfig {
            requester: Some(SuccinctNetworkRequester::LocalPrivateKey("key".to_owned())),
            fulfillment_strategy: SuccinctNetworkFulfillmentStrategy::Auction,
            timeout_hours: 2,
        },
        range_cycle_limit: 7,
        range_gas_limit: 8,
    }
}

fn completed(builder: &SuccinctBackendBuilder, stage: BuildStage) -> BuildAction {
    match builder.build(stage, &BuildOutcome::Completed) {
        Ok(action) => action,
        Err(error) => panic!("{}", error.to_string()),
    }
}

fn refused(builder: &SuccinctBackendBuilder, stage: BuildStage, outcome: BuildOutcome) -> String {
    assert!(stage.accepts(builder.backend, &outcome));
    match builder.build(stage, &outcome) {
        Ok(_) => panic!("the step was not refused"),
        Err(error) => error.to_string(),
    }
}

#[test]
fn local_backends_finish_at_once() {
    let mut mock = builder(SuccinctBackendKind::Mock);
    mock.l1_rpc = None;
    assert!(matches!(completed(&mock, BuildStage::Requested), BuildAction::FinishMock));
    let dry_run = builder(SuccinctBackendKind::DryRun);
    let action = completed(&dry_run, BuildStage::Requested);
    assert!(matches!(action, BuildAction::FinishDryRun));
    assert_eq!(action.awaited_stage(), None);
}

#[test]
fn cancellation_gives_nothing_at_every_stage() {
    for backend in [SuccinctBackendKind::Cluster, SuccinctBackendKind::Network] {
        let mut builder = builder(backend);
        builder.l1_rpc = None;
        for stage in [
            BuildStage::Requested,
            BuildStage::ProvingKeys,
            BuildStage::DataFetcher,
            BuildStage::DownloadClient,
            BuildStage::ArtifactClient,
            BuildStage::ClusterClient,
            BuildStage::NetworkSigner,
            BuildStage::NetworkProver,
        ] {
            if stage.accepts(backend, &BuildOutcome::Cancelled) {
                let action = builder.build(stage, &BuildOutcome::Cancelled);
                assert!(matches!(action, Ok(BuildAction::GiveUp)));
            }
        }
    }
}

#[test]
fn cluster_is_built_in_order() {
    let builder = builder(SuccinctBackendKind::Cluster);
    let BuildAction::CreateDataFetcher(rpcs) = completed(&builder, BuildStage::Requested) else {
        panic!("expected the data fetcher");
    };
    assert_eq!(rpcs.l1_rpc.as_str(), "http://l1:8545/");
    assert_eq!(rpcs.l1_beacon_rpc.unwrap().as_str(), "http://beacon:5052/");
    assert_eq!(rpcs.l2_rpc.as_str(), "http://l2:8545/");
    assert_eq!(rpcs.l2_node_rpc.as_str(), "http://consensus:9545/");
    let download = completed(&builder, BuildStage::DataFetcher);
    assert_eq!(download.awaited_stage(), Some(BuildStage::DownloadClient));
    assert!(
        matches!(download, BuildAction::CreateDownloadClient { region } if region == "us-east-1")
    );
    assert!(matches!(
        completed(&builder, BuildStage::DownloadClient),
        BuildAction::CreateArtifactClient { region, bucket, concurrency: 32 }
            if region == "us-east-1" && bucket == "bucket"
    ));
    assert!(matches!(
        completed(&builder, BuildStage::ArtifactClient),
        BuildAction::ConnectCluster { endpoint } if endpoint == "http://cluster:50051"
    ));
    let BuildAction::FinishCluster(plan) = completed(&builder, BuildStage::ClusterClient) else {
        panic!("expected the cluster backend");
    };
    assert_eq!(plan.base_consensus_url, "http://consensus:9545/");
    assert_eq!(plan.l1_node_url, "http://l1:8545/");
    assert_eq!(plan.cluster_rpc, "http://cluster:50051");
    assert_eq!((plan.bucket.as_str(), plan.region.as_str()), ("bucket", "us-east-1"));
    assert_eq!((plan.default_sequence_window, plan.timeout_secs), (50, 86_400));
    assert_eq!((plan.range_cycle_limit, plan.range_gas_limit), (7, 8));
}

#[test]
fn network_is_built_in_order() {
    let builder = builder(SuccinctBackendKind::Network);
    assert!(matches!(
        completed(&builder, BuildStage::Requested),
        BuildAction::ComputeProvingKeys
    ));
    assert!(matches!(
        completed(&builder, BuildStage::ProvingKeys),
        BuildAction::CreateDataFetcher(_)
    ));
    assert!(matches!(
        completed(&builder, BuildStage::DataFetcher),
        BuildAction::CreateSigner(SuccinctNetworkRequester::LocalPrivateKey(key)) if key == "key"
    ));
    assert!(matches!(
        completed(&builder, BuildStage::NetworkSigner),
        BuildAction::CreateNetworkProver(NetworkMode::Mainnet)
    ));
    let BuildAction::FinishNetwork(plan) = completed(&builder, BuildStage::NetworkProver) else {
        panic!("expected the network backend");
    };
    assert_eq!(plan.fulfillment_strategy, FulfillmentStrategy::Auction);
    assert_eq!((plan.default_sequence_window, plan.timeout_secs), (50, 7_200));
    assert_eq!((plan.range_cycle_limit, plan.range_gas_limit), (7, 8));
    assert_eq!(plan.base_consensus_url, "http://consensus:9545/");
    assert_eq!(plan.l1_node_url, "http://l1:8545/");
}

#[test]
fn strategies_select_the_network_mode() {
    for (strategy, mode, fulfillment) in [
        (
            SuccinctNetworkFulfillmentStrategy::Auction,
            NetworkMode::Mainnet,
            FulfillmentStrategy::Auction,
        ),
        (
            SuccinctNetworkFulfillmentStrategy::Hosted,
            NetworkMode::Reserved,
            FulfillmentStrategy::Hosted,
        ),
        (
            SuccinctNetworkFulfillmentStrategy::Reserved,
            NetworkMode::Reserved,
            FulfillmentStrategy::Reserved,
        ),
    ] {
        assert_eq!(strategy.network_mode(), mode);
        assert_eq!(FulfillmentStrategy::from(strategy), fulfillment);
    }
}

#[test]
fn first_missing_rpc_is_named() {
    let mut cluster = builder(SuccinctBackendKind::Cluster);
    cluster.base_consensus_rpc = None;
    assert_eq!(
        refused(&cluster, BuildStage::Requested, BuildOutcome::Completed),
        "BASE_CONSENSUS_ADDRESS must be set for ZK_BACKEND=cluster"
    );
    cluster.l2_rpc = None;
    assert_eq!(
        refused(&cluster, BuildStage::Requested, BuildOutcome::Completed),
        "L2_NODE_ADDRESS must be set for ZK_BACKEND=cluster"
    );
    cluster.l1_beacon_rpc = None;
    assert_eq!(
        refused(&cluster, BuildStage::Requested, BuildOutcome::Completed),
        "L1_BEACON_ADDRESS must be set for ZK_BACKEND=cluster"
    );
    let mut network = builder(SuccinctBackendKind::Network);
    network.l1_rpc = None;
    network.l2_rpc = None;
    assert_eq!(
        refused(&network, BuildStage::Requested, BuildOutcome::Completed),
        "L1_NODE_ADDRESS must be set for ZK_BACKEND=network"
    );
    assert!(network.required_rpcs().is_err());
}

#[test]
fn blank_cluster_values_count_as_missing() {
    let mut cluster = builder(SuccinctBackendKind::Cluster);
    cluster.cluster.s3_region = Some("\t \u{a0}\u{2003}".to_owned());
    assert_eq!(
        refused(&cluster, BuildStage::DataFetcher, BuildOutcome::Completed),
        "CLI_S3_REGION must be set for ZK_BACKEND=cluster"
    );
    cluster.cluster.s3_bucket = None;
    assert_eq!(
        refused(&cluster, BuildStage::DataFetcher, BuildOutcome::Completed),
        "CLI_S3_BUCKET must be set for ZK_BACKEND=cluster"
    );
    cluster.cluster.cluster_rpc_endpoint = Some(String::new());
    assert_eq!(
        refused(&cluster, BuildStage::Requested, BuildOutcome::Completed),
        "SP1_CLUSTER_API_ENDPOINT must be set for ZK_BACKEND=cluster"
    );
}

#[test]
fn inner_white_space_is_kept() {
    let cluster = builder(SuccinctBackendKind::Cluster);
    let value = Some("\u{85} a b\u{200b}\u{2028}".to_owned());
    assert_eq!(
        cluster.required_cluster_value(&value, "FIELD").unwrap(),
        "a b\u{200b}"
    );
}

#[test]
fn missing_requester_is_named() {
    let mut network = builder(SuccinctBackendKind::Network);
    network.network.requester = None;
    assert_eq!(
        refused(&network, BuildStage::DataFetcher, BuildOutcome::Completed),
        "NETWORK_PRIVATE_KEY must be set for ZK_BACKEND=network"
    );
    assert_eq!(
        refused(&network, BuildStage::NetworkProver, BuildOutcome::Completed),
        "NETWORK_PRIVATE_KEY must be set for ZK_BACKEND=network"
    );
}

#[test]
fn failures_become_errors_of_their_stage() {
    let failed = || BuildOutcome::Failed("boom".to_owned());
    let cluster = builder(SuccinctBackendKind::Cluster);
    assert_eq!(
        refused(&cluster, BuildStage::DataFetcher, failed()),
        "failed to create OPSuccinctDataFetcher"
    );
    assert_eq!(
        refused(&cluster, BuildStage::ClusterClient, failed()),
        "failed to create SP1 cluster client: boom"
    );
    let mut network = builder(SuccinctBackendKind::Network);
    assert_eq!(
        refused(&network, BuildStage::ProvingKeys, failed()),
        "failed to compute proving keys"
    );
    assert_eq!(
        refused(&network, BuildStage::NetworkSigner, failed()),
        "failed to create local network signer"
    );
    network.network.requester = Some(SuccinctNetworkRequester::AwsKmsKeyId("arn".to_owned()));
    assert_eq!(
        refused(&network, BuildStage::NetworkSigner, failed()),
        "failed to create KMS network signer"
    );
    let error = network.build(BuildStage::NetworkSigner, &failed());
    assert!(
        matches!(error, Err(SuccinctBackendBuildError::KmsNetworkSigner { source }) if source == "boom")
    );
}

#[test]
fn stages_of_other_backends_are_not_accepted() {
    let failed = BuildOutcome::Failed(String::new());
    assert!(!BuildStage::ProvingKeys
        .accepts(SuccinctBackendKind::Cluster, &BuildOutcome::Completed));
    assert!(!BuildStage::DownloadClient
        .accepts(SuccinctBackendKind::Network, &BuildOutcome::Completed));
    assert!(!BuildStage::DataFetcher.accepts(SuccinctBackendKind::Mock, &BuildOutcome::Completed));
    assert!(!BuildStage::DownloadClient.accepts(SuccinctBackendKind::Cluster, &failed));
    assert!(!BuildStage::NetworkProver.accepts(SuccinctBackendKind::Network, &failed));
}

#[test]
fn timeouts_are_converted_to_seconds() {
    assert_eq!(SuccinctBackendBuilder::timeout(0, "FIELD").unwrap(), 0);
    assert_eq!(SuccinctBackendBuilder::timeout(24, "FIELD").unwrap(), 86_400);
    let largest = u64::MAX / 3600;
    assert_eq!(SuccinctBackendBuilder::timeout(largest, "FIELD").unwrap(), largest * 3600);
    assert_eq!(
        SuccinctBackendBuilder::timeout(largest + 1, "FIELD").unwrap_err().to_string(),
        "FIELD is too large"
    );
    let mut builder = builder(SuccinctBackendKind::Cluster);
    builder.cluster.timeout_hours = u64::MAX;
    assert_eq!(
        refused(&builder, BuildStage::ClusterClient, BuildOutcome::Completed),
        "SP1_CLUSTER_TIMEOUT_HOURS is too large"
    );
    builder.backend = SuccinctBackendKind::Network;
    builder.network.timeout_hours = u64::MAX;
    assert_eq!(
        refused(&builder, BuildStage::NetworkProver, BuildOutcome::Completed),
        "SP1_NETWORK_TIMEOUT_HOURS is too large"
    );
}

#[test]
fn credentials_are_not_shown() {
    let local = SuccinctNetworkRequester::LocalPrivateKey("secret".to_owned());
    assert_eq!(local.debug_text(), "LocalPrivateKey(<redacted>)");
    let kms = SuccinctNetworkRequester::AwsKmsKeyId("arn:aws:kms".to_owned());
    assert_eq!(kms.debug_text(), "AwsKmsKeyId(<redacted>)");
}

#[test]
fn backends_have_names() {
    assert_eq!(SuccinctBackendKind::Mock.to_string(), "mock");
    assert_eq!(SuccinctBackendKind::DryRun.to_string(), "dry_run");
    assert_eq!(SuccinctBackendKind::Cluster.to_string(), "cluster");
    assert_eq!(SuccinctBackendKind::Network.to_string(), "network");
}
