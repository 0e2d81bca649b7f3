//! Settings and decisions of the ZK prover host worker.

use crate::builder;
use crate::builder::{
    SuccinctBackendBuilder, SuccinctBackendKind, SuccinctClusterBackendConfig,
    SuccinctNetworkBackendConfig, SuccinctNetworkFulfillmentStrategy, SuccinctNetworkRequester,
};
use crate::rpc_url;
use url::Url;
use uuid::Uuid;
use vstd::prelude::*;
use vstd::string::*;

verus! {

/// ZK proof type argument.
#[derive(Clone, Copy, Debug, PartialEq, Eq, Structural)]
pub enum ZkProofTypeArg {
    /// Claim compressed ZK proofs.
    Compressed,
    /// Claim SNARK Groth16 proofs.
    SnarkGroth16,
}

/// ZK proof type that a worker claims.
#[derive(Clone, Copy, Debug, PartialEq, Eq, Structural)]
pub enum ZkProofClaimType {
    /// Compressed ZK proofs.
    Compressed,
    /// SNARK Groth16 proofs.
    SnarkGroth16,
}

/// ZK proving backend argument.
#[derive(Clone, Copy, Debug, PartialEq, Eq, Structural)]
pub enum ZkBackendArg {
    /// Return placeholder proof bytes without an external backend.
    Mock,
    /// Return empty proof bytes without an external backend.
    DryRun,
    /// Submit proofs to an SP1 cluster.
    Cluster,
    /// Submit proofs to the Succinct SP1 Network.
    Network,
}

/// SP1 network fulfillment strategy argument.
#[derive(Clone, Copy, Debug, PartialEq, Eq, Structural)]
pub enum Sp1FulfillmentStrategyArg {
    /// Submit proofs to reserved SP1 Network capacity.
    Reserved,
    /// Submit proofs to hosted SP1 Network capacity.
    Hosted,
    /// Submit proofs to the SP1 Network auction.
    Auction,
}

/// ZK virtual machine whose proofs a worker generates.
#[derive(Clone, Copy, Debug, PartialEq, Eq, Structural)]
pub enum ZkVm {
    /// The SP1 virtual machine.
    Sp1,
}

/// Worker-mode arguments for claiming and generating ZK proof jobs.
pub struct WorkerArgs {
    /// Prover-service JSON-RPC endpoint.
    pub prover_service_endpoint: String,
    /// Prover-service JSON-RPC request timeout in seconds.
    pub prover_service_request_timeout_secs: u64,
    /// ZK proof type to claim.
    pub proof_type: ZkProofTypeArg,
    /// Proving backend to run.
    pub backend: ZkBackendArg,
    /// Base consensus node RPC URL.
    pub base_consensus_address: Option<Url>,
    /// L1 execution node RPC URL.
    pub l1_node_address: Option<Url>,
    /// L1 beacon node RPC URL.
    pub l1_beacon_address: Option<Url>,
    /// L2 execution node RPC URL.
    pub l2_node_address: Option<Url>,
    /// Default sequence window for L1 head calculations.
    pub default_sequence_window: u64,
    /// SP1 cluster gRPC endpoint.
    pub sp1_cluster_api_endpoint: Option<String>,
    /// SP1 cluster proof timeout in hours.
    pub sp1_cluster_timeout_hours: u64,
    /// S3 artifact store bucket.
    pub cli_s3_bucket: Option<String>,
    /// S3 artifact store region.
    pub cli_s3_region: Option<String>,
    /// SP1 network requester private key, or KMS key ARN.
    pub network_private_key: Option<String>,
    /// SP1 network fulfillment strategy.
    pub sp1_fulfillment_strategy: Sp1FulfillmentStrategyArg,
    /// Use the requester key as an AWS KMS ARN instead of a local private key.
    pub use_kms_requester: bool,
    /// SP1 network proof timeout in hours.
    pub sp1_network_timeout_hours: u64,
    /// Cycle limit for range proof requests.
    pub range_cycle_limit: u64,
    /// Gas limit for range proof requests.
    pub range_gas_limit: u64,
    /// Delay after an empty or failed discovery attempt, in milliseconds.
    pub job_discovery_poll_interval_ms: u64,
    /// Requested claim lock duration in seconds. Zero uses the server default.
    pub job_discovery_lock_duration_seconds: u32,
    /// Maximum number of claimed proof jobs generated concurrently.
    pub job_discovery_max_concurrent_jobs: usize,
    /// Delay between worker API heartbeats while a proof is being generated.
    pub proof_generator_heartbeat_interval_secs: u64,
    /// Requested heartbeat lock duration in seconds. Zero uses the server default.
    pub proof_generator_heartbeat_lock_duration_seconds: u32,
    /// Maximum consecutive retryable heartbeat failures before aborting generation.
    pub proof_generator_max_consecutive_heartbeat_failures: u32,
}

/// A ZK prover host worker.
pub struct Worker {
    /// Arguments of the worker.
    pub args: WorkerArgs,
}

/// The selected backend cannot generate the selected proof type.
#[derive(Clone, Copy, Debug, PartialEq, Eq, Structural)]
pub struct UnsupportedProofType {
    /// Selected backend.
    pub backend: ZkBackendArg,
}

/// What a worker does before it starts: it builds a backend for a proof type.
pub struct WorkerPlan {
    /// ZK proof type to claim.
    pub proof_type: ZkProofClaimType,
    /// Settings of the backend.
    pub backend_builder: SuccinctBackendBuilder,
}

/// Whether a worker starts once its backend was asked for.
#[derive(Clone, Copy, Debug, PartialEq, Eq, Structural)]
pub enum WorkerStart {
    /// Building the backend was cancelled.
    InitializationCancelled,
    /// Cancellation was requested after the backend was built.
    StartupCancelled,
    /// The worker connects to the prover service.
    Connect,
}

/// Settings of the prover-service client.
#[derive(Clone, Debug)]
pub struct ClientSettings {
    /// Prover-service JSON-RPC endpoint.
    pub endpoint: String,
    /// Request timeout in seconds.
    pub request_timeout_secs: u64,
}

/// Settings of the heartbeats sent while a proof is being generated.
#[derive(Clone, Copy, Debug, PartialEq, Eq, Structural)]
pub struct HeartbeatSettings {
    /// Delay between heartbeats in seconds.
    pub interval_secs: u64,
    /// Requested lock duration in seconds.
    pub lock_duration_seconds: u32,
    /// Consecutive retryable failures before generation is aborted.
    pub max_consecutive_failures: u32,
}

/// Settings of the host that claims and generates proofs.
#[derive(Clone, Debug)]
pub struct HostSettings {
    /// Identifier of the worker.
    pub worker_id: String,
    /// ZK proof type to claim.
    pub proof_type: ZkProofClaimType,
    /// Virtual machines whose proofs are generated.
    pub zk_vms: Vec<ZkVm>,
    /// Delay after an empty or failed discovery attempt, in milliseconds.
    pub job_discovery_poll_interval_ms: u64,
    /// Requested claim lock duration in seconds.
    pub job_discovery_lock_duration_seconds: u32,
    /// Maximum number of claimed proof jobs generated concurrently.
    pub job_discovery_max_concurrent_jobs: usize,
    /// Heartbeat settings.
    pub heartbeat: HeartbeatSettings,
}

impl ZkProofTypeArg {
    /// The proof type that the argument claims.
    pub open spec fn claim(self) -> ZkProofClaimType {
        match self {
            ZkProofTypeArg::Compressed => ZkProofClaimType::Compressed,
            ZkProofTypeArg::SnarkGroth16 => ZkProofClaimType::SnarkGroth16,
        }
    }
}

impl From<ZkProofTypeArg> for ZkProofClaimType {
    fn from(proof_type: ZkProofTypeArg) -> (claim: Self) {
        match proof_type {
            ZkProofTypeArg::Compressed => ZkProofClaimType::Compressed,
            ZkProofTypeArg::SnarkGroth16 => ZkProofClaimType::SnarkGroth16,
        }
    }
}

impl vstd::std_specs::convert::FromSpecImpl<ZkProofTypeArg> for ZkProofClaimType {
    open spec fn obeys_from_spec() -> bool {
        true
    }

    open spec fn from_spec(proof_type: ZkProofTypeArg) -> ZkProofClaimType {
        proof_type.claim()
    }
}

impl ZkBackendArg {
    /// The backend that the argument selects.
    pub open spec fn kind(self) -> SuccinctBackendKind {
        match self {
            ZkBackendArg::Mock => SuccinctBackendKind::Mock,
            ZkBackendArg::DryRun => SuccinctBackendKind::DryRun,
            ZkBackendArg::Cluster => SuccinctBackendKind::Cluster,
            ZkBackendArg::Network => SuccinctBackendKind::Network,
        }
    }

    /// The backend can generate proofs of the type: the ones without an external
    /// backend can do any, the others compressed ones only.
    pub open spec fn supports(self, proof_type: ZkProofTypeArg) -> bool {
        self == ZkBackendArg::Mock || self == ZkBackendArg::DryRun || proof_type
            == ZkProofTypeArg::Compressed
    }

    /// The argument as text.
    pub open spec fn text(self) -> Seq<char> {
        match self {
            ZkBackendArg::Mock => "mock"@,
            ZkBackendArg::DryRun => "dry_run"@,
            ZkBackendArg::Cluster => "cluster"@,
            ZkBackendArg::Network => "network"@,
        }
    }

    /// The argument as a string slice.
    pub fn as_ref(&self) -> (text: &'static str)
        ensures
            text@ == self.text(),
    {
        match self {
            ZkBackendArg::Mock => "mock",
            ZkBackendArg::DryRun => "dry_run",
            ZkBackendArg::Cluster => "cluster",
            ZkBackendArg::Network => "network",
        }
    }

    /// The argument as text.
    pub fn to_string(&self) -> (text: String)
        ensures
            text@ == self.text(),
    {
        self.as_ref().to_owned()
    }

    /// Whether the backend can generate proofs of the type.
    pub fn supports_proof_type(self, proof_type: ZkProofTypeArg) -> (supports: bool)
        ensures
            supports == self.supports(proof_type),
    {
        match self {
            ZkBackendArg::Mock | ZkBackendArg::DryRun => true,
            ZkBackendArg::Cluster | ZkBackendArg::Network => match proof_type {
                ZkProofTypeArg::Compressed => true,
                ZkProofTypeArg::SnarkGroth16 => false,
            },
        }
    }
}

impl From<ZkBackendArg> for SuccinctBackendKind {
    fn from(backend: ZkBackendArg) -> (kind: Self) {
        match backend {
            ZkBackendArg::Mock => SuccinctBackendKind::Mock,
            ZkBackendArg::DryRun => SuccinctBackendKind::DryRun,
            ZkBackendArg::Cluster => SuccinctBackendKind::Cluster,
            ZkBackendArg::Network => SuccinctBackendKind::Network,
        }
    }
}

impl vstd::std_specs::convert::FromSpecImpl<ZkBackendArg> for SuccinctBackendKind {
    open spec fn obeys_from_spec() -> bool {
        true
    }

    open spec fn from_spec(backend: ZkBackendArg) -> SuccinctBackendKind {
        backend.kind()
    }
}

impl Sp1FulfillmentStrategyArg {
    /// The strategy that the argument selects.
    pub open spec fn strategy(self) -> SuccinctNetworkFulfillmentStrategy {
        match self {
            Sp1FulfillmentStrategyArg::Reserved => SuccinctNetworkFulfillmentStrategy::Reserved,
            Sp1FulfillmentStrategyArg::Hosted => SuccinctNetworkFulfillmentStrategy::Hosted,
            Sp1FulfillmentStrategyArg::Auction => SuccinctNetworkFulfillmentStrategy::Auction,
        }
    }
}

impl From<Sp1FulfillmentStrategyArg> for SuccinctNetworkFulfillmentStrategy {
    fn from(strategy: Sp1FulfillmentStrategyArg) -> (selected: Self) {
        match strategy {
            Sp1FulfillmentStrategyArg::Reserved => SuccinctNetworkFulfillmentStrategy::Reserved,
            Sp1FulfillmentStrategyArg::Hosted => SuccinctNetworkFulfillmentStrategy::Hosted,
            Sp1FulfillmentStrategyArg::Auction => SuccinctNetworkFulfillmentStrategy::Auction,
        }
    }
}

impl vstd::std_specs::convert::FromSpecImpl<Sp1FulfillmentStrategyArg>
    for SuccinctNetworkFulfillmentStrategy {
    open spec fn obeys_from_spec() -> bool {
        true
    }

    open spec fn from_spec(strategy: Sp1FulfillmentStrategyArg) -> Self {
        strategy.strategy()
    }
}

impl From<WorkerArgs> for Worker {
    fn from(args: WorkerArgs) -> (worker: Self) {
        Worker { args }
    }
}

impl vstd::std_specs::convert::FromSpecImpl<WorkerArgs> for Worker {
    open spec fn obeys_from_spec() -> bool {
        true
    }

    open spec fn from_spec(args: WorkerArgs) -> Worker {
        Worker { args }
    }
}

impl UnsupportedProofType {
    /// The text of the error.
    pub open spec fn text(self) -> Seq<char> {
        "ZK_BACKEND="@ + self.backend.text() + " currently supports PROOF_TYPE=compressed only"@
    }

    /// The error as text.
    pub fn to_string(&self) -> (text: String)
        ensures
            text@ == self.text(),
    {
        "ZK_BACKEND=".to_owned().concat(self.backend.as_ref()).concat(
            " currently supports PROOF_TYPE=compressed only",
        )
    }
}

/// The requester credential that the arguments select.
pub open spec fn selects_requester(
    args: WorkerArgs,
    requester: Option<SuccinctNetworkRequester>,
) -> bool {
    match (args.network_private_key, requester) {
        (None, None) => true,
        (Some(key), Some(SuccinctNetworkRequester::AwsKmsKeyId(id))) => args.use_kms_requester
            && id@ == key@,
        (Some(key), Some(SuccinctNetworkRequester::LocalPrivateKey(local))) => {
            !args.use_kms_requester && local@ == key@
        },
        _ => false,
    }
}

/// The builder has the settings of the arguments.
pub open spec fn configures(args: WorkerArgs, builder: SuccinctBackendBuilder) -> bool {
    &&& builder.backend == args.backend.kind()
    &&& builder::optional_url_text(builder.base_consensus_rpc) == builder::optional_url_text(
        args.base_consensus_address,
    )
    &&& builder::optional_url_text(builder.l1_rpc) == builder::optional_url_text(
        args.l1_node_address,
    )
    &&& builder::optional_url_text(builder.l1_beacon_rpc) == builder::optional_url_text(
        args.l1_beacon_address,
    )
    &&& builder::optional_url_text(builder.l2_rpc) == builder::optional_url_text(
        args.l2_node_address,
    )
    &&& builder.default_sequence_window == args.default_sequence_window
    &&& builder::optional_text(builder.cluster.cluster_rpc_endpoint) == builder::optional_text(
        args.sp1_cluster_api_endpoint,
    )
    &&& builder::optional_text(builder.cluster.s3_bucket) == builder::optional_text(
        args.cli_s3_bucket,
    )
    &&& builder::optional_text(builder.cluster.s3_region) == builder::optional_text(
        args.cli_s3_region,
    )
    &&& builder.cluster.timeout_hours == args.sp1_cluster_timeout_hours
    &&& selects_requester(args, builder.network.requester)
    &&& builder.network.fulfillment_strategy == args.sp1_fulfillment_strategy.strategy()
    &&& builder.network.timeout_hours == args.sp1_network_timeout_hours
    &&& builder.range_cycle_limit == args.range_cycle_limit
    &&& builder.range_gas_limit == args.range_gas_limit
}

/// A copy of a URL that may be absent.
fn copy_url(url: &Option<Url>) -> (copy: Option<Url>)
    ensures
        builder::optional_url_text(copy) == builder::optional_url_text(*url),
{
    match url {
        Some(url) => Some(rpc_url::clone_url(url)),
        None => None,
    }
}

/// A copy of a text that may be absent.
fn copy_text(text: &Option<String>) -> (copy: Option<String>)
    ensures
        builder::optional_text(copy) == builder::optional_text(*text),
{
    match text {
        Some(text) => Some(text.clone()),
        None => None,
    }
}

/// The character at a position of a hyphenated random UUID.
pub open spec fn is_uuid_char(position: int, c: char) -> bool {
    if position == 8 || position == 13 || position == 18 || position == 23 {
        c == '-'
    } else if position == 14 {
        c == '4'
    } else if position == 19 {
        c == '8' || c == '9' || c == 'a' || c == 'b'
    } else {
        '0' <= c <= '9' || 'a' <= c <= 'f'
    }
}

/// The text is a random UUID in hyphenated lower case form.
pub open spec fn is_random_uuid(text: Seq<char>) -> bool {
    &&& text.len() == 36
    &&& forall|i: int| 0 <= i < 36 ==> is_uuid_char(i, #[trigger] text[i])
}

/// Calls `uuid::Uuid::new_v4`, which makes a random UUID, and shows it in
/// hyphenated lower case form. Which UUID it is rests on chance; the form, the
/// version digit and the variant digit are fixed. The call panics where the
/// operating system provides no randomness.
#[verifier::external_body]
fn new_uuid() -> (text: String)
    ensures
        is_random_uuid(text@),
{
    Uuid::new_v4().to_string()
}

/// The identifier of the worker with a UUID.
pub fn worker_id(uuid: &str) -> (id: String)
    ensures
        id@ == "zk-host-"@ + uuid@,
{
    "zk-host-".to_owned().concat(uuid)
}

/// A new identifier of a worker.
pub fn new_worker_id() -> (id: String)
    ensures
        exists|uuid: Seq<char>| #[trigger] is_random_uuid(uuid) && id@ == "zk-host-"@ + uuid,
{
    let uuid = new_uuid();
    worker_id(uuid.as_str())
}

impl Worker {
    /// The requester credential that the arguments select.
    fn requester(&self) -> (requester: Option<SuccinctNetworkRequester>)
        ensures
            selects_requester(self.args, requester),
    {
        match &self.args.network_private_key {
            Some(key) => {
                if self.args.use_kms_requester {
                    Some(SuccinctNetworkRequester::AwsKmsKeyId(key.clone()))
                } else {
                    Some(SuccinctNetworkRequester::LocalPrivateKey(key.clone()))
                }
            },
            None => None,
        }
    }

    /// What the worker does first: unless the backend does not support the proof
    /// type, it builds the backend.
    pub fn plan(&self) -> (plan: Result<WorkerPlan, UnsupportedProofType>)
        ensures
            match plan {
                Ok(plan) => {
                    &&& self.args.backend.supports(self.args.proof_type)
                    &&& plan.proof_type == self.args.proof_type.claim()
                    &&& configures(self.args, plan.backend_builder)
                },
                Err(error) => {
                    &&& !self.args.backend.supports(self.args.proof_type)
                    &&& error.backend == self.args.backend
                },
            },
    {
        let args = &self.args;
        if !args.backend.supports_proof_type(args.proof_type) {
            return Err(UnsupportedProofType { backend: args.backend });
        }
        let backend_builder = SuccinctBackendBuilder {
            backend: SuccinctBackendKind::from(args.backend),
            base_consensus_rpc: copy_url(&args.base_consensus_address),
            l1_rpc: copy_url(&args.l1_node_address),
            l1_beacon_rpc: copy_url(&args.l1_beacon_address),
            l2_rpc: copy_url(&args.l2_node_address),
            default_sequence_window: args.default_sequence_window,
            cluster: SuccinctClusterBackendConfig {
                cluster_rpc_endpoint: copy_text(&args.sp1_cluster_api_endpoint),
                s3_bucket: copy_text(&args.cli_s3_bucket),
                s3_region: copy_text(&args.cli_s3_region),
                timeout_hours: args.sp1_cluster_timeout_hours,
            },
            network: SuccinctNetworkBackendConfig {
                requester: self.requester(),
                fulfillment_strategy: SuccinctNetworkFulfillmentStrategy::from(
                    args.sp1_fulfillment_strategy,
                ),
                timeout_hours: args.sp1_network_timeout_hours,
            },
            range_cycle_limit: args.range_cycle_limit,
            range_gas_limit: args.range_gas_limit,
        };
        Ok(WorkerPlan { proof_type: ZkProofClaimType::from(args.proof_type), backend_builder })
    }

    /// Whether the worker starts, given whether a backend was built and whether
    /// cancellation was requested after that.
    pub fn start(backend_built: bool, cancelled: bool) -> (start: WorkerStart)
        ensures
            start == WorkerStart::Connect <==> backend_built && !cancelled,
            start == WorkerStart::InitializationCancelled <==> !backend_built,
    {
        if !backend_built {
            WorkerStart::InitializationCancelled
        } else if cancelled {
            WorkerStart::StartupCancelled
        } else {
            WorkerStart::Connect
        }
    }

    /// The settings of the prover-service client.
    pub fn client_settings(&self) -> (settings: ClientSettings)
        ensures
            settings.endpoint@ == self.args.prover_service_endpoint@,
            settings.request_timeout_secs == self.args.prover_service_request_timeout_secs,
    {
        ClientSettings {
            endpoint: self.args.prover_service_endpoint.clone(),
            request_timeout_secs: self.args.prover_service_request_timeout_secs,
        }
    }

    /// The settings of the host that runs under the worker identifier.
    pub fn host_settings(&self, worker_id: String) -> (settings: HostSettings)
        ensures
            settings.worker_id == worker_id,
            settings.proof_type == self.args.proof_type.claim(),
            settings.zk_vms@ == seq![ZkVm::Sp1],
            settings.job_discovery_poll_interval_ms == self.args.job_discovery_poll_interval_ms,
            settings.job_discovery_lock_duration_seconds
                == self.args.job_discovery_lock_duration_seconds,
            settings.job_discovery_max_concurrent_jobs
                == self.args.job_discovery_max_concurrent_jobs,
            settings.heartbeat == (HeartbeatSettings {
                interval_secs: self.args.proof_generator_heartbeat_interval_secs,
                lock_duration_seconds: self.args.proof_generator_heartbeat_lock_duration_seconds,
                max_consecutive_failures:
                    self.args.proof_generator_max_consecutive_heartbeat_failures,
            }),
    {
        let args = &self.args;
        let mut zk_vms: Vec<ZkVm> = Vec::new();
        zk_vms.push(ZkVm::Sp1);
        assert(zk_vms@ =~= seq![ZkVm::Sp1]);
        HostSettings {
            worker_id,
            proof_type: ZkProofClaimType::from(args.proof_type),
            zk_vms,
            job_discovery_poll_interval_ms: args.job_discovery_poll_interval_ms,
            job_discovery_lock_duration_seconds: args.job_discovery_lock_duration_seconds,
            job_discovery_max_concurrent_jobs: args.job_discovery_max_concurrent_jobs,
            heartbeat: HeartbeatSettings {
                interval_secs: args.proof_generator_heartbeat_interval_secs,
                lock_duration_seconds: args.proof_generator_heartbeat_lock_duration_seconds,
                max_consecutive_failures: args.proof_generator_max_consecutive_heartbeat_failures,
            },
        }
    }
}

/// Every backend generates compressed proofs; SNARK proofs are generated by the
/// backends that run without an external one, and by no others.
pub proof fn law_proof_types(backend: ZkBackendArg)
    ensures
        backend.supports(ZkProofTypeArg::Compressed),
        backend.supports(ZkProofTypeArg::SnarkGroth16) <==> backend == ZkBackendArg::Mock
            || backend == ZkBackendArg::DryRun,
{
}

/// An argument and the backend that it selects have the same name.
pub proof fn law_backend_names_agree(backend: ZkBackendArg)
    ensures
        backend.text() == backend.kind().text(),
{
}

} // verus!
