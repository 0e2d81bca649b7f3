//! The ZK prover host worker.

use base_batcher_prover::builder::{
    SuccinctBackendKind, SuccinctNetworkFulfillmentStrategy, SuccinctNetworkRequester,
};
use base_batcher_prover::zk_host::{
    new_worker_id, worker_id, Sp1FulfillmentStrategyArg, Worker, WorkerArgs, WorkerStart,
    ZkBackendArg, ZkProofClaimType, ZkProofTypeArg, ZkVm,
};
use url::Url;

fn args(backend: ZkBackendArg, proof_type: ZkProofTypeArg) -> WorkerArgs {
    WorkerArgs {
        prover_service_endpoint: "http://prover:3000".to_owned(),
        prover_service_request_timeout_secs: 60,
        proof_type,
        backend,
        base_consensus_address: Some(Url::parse("http://consensus:1").unwrap()),
        l1_node_address: Some(Url::parse("http://l1:2").unwrap()),
        l1_beacon_address: Some(Url::parse("http://beacon:3").unwrap()),
        l2_node_address: None,
        default_sequence_window: 50,
        sp1_cluster_api_endpoint: Some("endpoint".to_owned()),
        sp1_cluster_timeout_hours: 24,
        cli_s3_bucket: Some("bucket".to_owned()),
        cli_s3_region: None,
        network_private_key: Some("key".to_owned()),
        sp1_fulfillment_strategy: Sp1FulfillmentStrategyArg::Hosted,
        use_kms_requester: false,
        sp1_network_timeout_hours: 12,
        range_cycle_limit: 1_000_000_000_000,
        range_gas_limit: 1_000_000_000_001,
        job_discovery_poll_interval_ms: 5_000,
        job_discovery_lock_duration_seconds: 30,
        job_discovery_max_concurrent_jobs: 4,
        proof_generator_heartbeat_interval_secs: 31,
        proof_generator_heartbeat_lock_duration_seconds: 32,
        proof_generator_max_consecutive_heartbeat_failures: 33,
    }
}

#[test]
fn backends_support_proof_types() {
    for backend in
        [ZkBackendArg::Mock, ZkBackendArg::DryRun, ZkBackendArg::Cluster, ZkBackendArg::Network]
    {
        assert!(backend.supports_proof_type(ZkProofTypeArg::Compressed));
    }
    assert!(ZkBackendArg::Mock.supports_proof_type(ZkProofTypeArg::SnarkGroth16));
    assert!(ZkBackendArg::DryRun.supports_proof_type(ZkProofTypeArg::SnarkGroth16));
    assert!(!ZkBackendArg::Cluster.supports_proof_type(ZkProofTypeArg::SnarkGroth16));
    assert!(!ZkBackendArg::Network.supports_proof_type(ZkProofTypeArg::SnarkGroth16));
}

#[test]
fn unsupported_proof_type_is_refused() {
    for (backend, text) in [
        (ZkBackendArg::Cluster, "ZK_BACKEND=cluster currently supports PROOF_TYPE=compressed only"),
        (ZkBackendArg::Network, "ZK_BACKEND=network currently supports PROOF_TYPE=compressed only"),
    ] {
        let worker = Worker::from(args(backend, ZkProofTypeArg::SnarkGroth16));
        match worker.plan() {
            Ok(_) => panic!("the proof type was accepted"),
            Err(error) => assert_eq!(error.to_string(), text),
        }
    }
}

#[test]
fn plan_has_the_settings_of_the_arguments() {
    let worker = Worker::from(args(ZkBackendArg::Network, ZkProofTypeArg::Compressed));
    let Ok(plan) = worker.plan() else { panic!("the plan was refused") };
    assert_eq!(plan.proof_type, ZkProofClaimType::Compressed);
    let builder = plan.backend_builder;
    assert_eq!(builder.backend, SuccinctBackendKind::Network);
    assert_eq!(builder.base_consensus_rpc.unwrap().as_str(), "http://consensus:1/");
    assert_eq!(builder.l1_rpc.unwrap().as_str(), "http://l1:2/");
    assert_eq!(builder.l1_beacon_rpc.unwrap().as_str(), "http://beacon:3/");
    assert!(builder.l2_rpc.is_none());
    assert_eq!(builder.default_sequence_window, 50);
    assert_eq!(builder.cluster.cluster_rpc_endpoint.as_deref(), Some("endpoint"));
    assert_eq!(builder.cluster.s3_bucket.as_deref(), Some("bucket"));
    assert_eq!(builder.cluster.s3_region, None);
    assert_eq!(builder.cluster.timeout_hours, 24);
    assert!(
        builder.network.requester
            == Some(SuccinctNetworkRequester::LocalPrivateKey("key".to_owned()))
    );
    assert_eq!(
        builder.network.fulfillment_strategy,
        SuccinctNetworkFulfillmentStrategy::Hosted
    );
    assert_eq!(builder.network.timeout_hours, 12);
    assert_eq!(builder.range_cycle_limit, 1_000_000_000_000);
    assert_eq!(builder.range_gas_limit, 1_000_000_000_001);
}

#[test]
fn kms_flag_selects_the_credential_source() {
    let mut kms = args(ZkBackendArg::Mock, ZkProofTypeArg::SnarkGroth16);
    kms.use_kms_requester = true;
    let Ok(plan) = Worker::from(kms).plan() else { panic!("the plan was refused") };
    assert_eq!(plan.proof_type, ZkProofClaimType::SnarkGroth16);
    assert!(
        plan.backend_builder.network.requester
            == Some(SuccinctNetworkRequester::AwsKmsKeyId("key".to_owned()))
    );
    let mut none = args(ZkBackendArg::Mock, ZkProofTypeArg::SnarkGroth16);
    none.network_private_key = None;
    none.use_kms_requester = true;
    let Ok(plan) = Worker::from(none).plan() else { panic!("the plan was refused") };
    assert!(plan.backend_builder.network.requester.is_none());
}

#[test]
fn cancelled_worker_does_not_connect() {
    assert_eq!(Worker::start(false, false), WorkerStart::InitializationCancelled);
    assert_eq!(Worker::start(false, true), WorkerStart::InitializationCancelled);
    assert_eq!(Worker::start(true, true), WorkerStart::StartupCancelled);
    assert_eq!(Worker::start(true, false), WorkerStart::Connect);
}

#[test]
fn host_has_the_settings_of_the_arguments() {
    let worker = Worker::from(args(ZkBackendArg::Mock, ZkProofTypeArg::Compressed));
    let client = worker.client_settings();
    assert_eq!((client.endpoint.as_str(), client.request_timeout_secs), ("http://prover:3000", 60));
    let host = worker.host_settings("zk-host-1".to_owned());
    assert_eq!(host.worker_id, "zk-host-1");
    assert_eq!(host.proof_type, ZkProofClaimType::Compressed);
    assert_eq!(host.zk_vms, vec![ZkVm::Sp1]);
    assert_eq!(host.job_discovery_poll_interval_ms, 5_000);
    assert_eq!(host.job_discovery_lock_duration_seconds, 30);
    assert_eq!(host.job_discovery_max_concurrent_jobs, 4);
    assert_eq!(host.heartbeat.interval_secs, 31);
    assert_eq!(host.heartbeat.lock_duration_seconds, 32);
    assert_eq!(host.heartbeat.max_consecutive_failures, 33);
}

#[test]
fn worker_ids_are_random_uuids() {
    assert_eq!(worker_id("abc"), "zk-host-abc");
    let id = new_worker_id();
    let uuid = id.strip_prefix("zk-host-").unwrap();
    assert_eq!(uuid.len(), 36);
    for (position, c) in uuid.chars().enumerate() {
        match position {
            8 | 13 | 18 | 23 => assert_eq!(c, '-'),
            14 => assert_eq!(c, '4'),
            19 => assert!(matches!(c, '8' | '9' | 'a' | 'b')),
            _ => assert!(matches!(c, '0'..='9' | 'a'..='f')),
        }
    }
    assert_ne!(new_worker_id(), id);
}

#[test]
fn arguments_name_and_select_backends() {
    for (argument, kind, name) in [
        (ZkBackendArg::Mock, SuccinctBackendKind::Mock, "mock"),
        (ZkBackendArg::DryRun, SuccinctBackendKind::DryRun, "dry_run"),
        (ZkBackendArg::Cluster, SuccinctBackendKind::Cluster, "cluster"),
        (ZkBackendArg::Network, SuccinctBackendKind::Network, "network"),
    ] {
        assert_eq!(SuccinctBackendKind::from(argument), kind);
        assert_eq!(argument.as_ref(), name);
        assert_eq!(argument.to_string(), kind.to_string());
    }
    assert_eq!(
        SuccinctNetworkFulfillmentStrategy::from(Sp1FulfillmentStrategyArg::Reserved),
        SuccinctNetworkFulfillmentStrategy::Reserved
    );
    assert_eq!(
        SuccinctNetworkFulfillmentStrategy::from(Sp1FulfillmentStrategyArg::Auction),
        SuccinctNetworkFulfillmentStrategy::Auction
    );
    assert_eq!(
        ZkProofClaimType::from(ZkProofTypeArg::SnarkGroth16),
        ZkProofClaimType::SnarkGroth16
    );
}
