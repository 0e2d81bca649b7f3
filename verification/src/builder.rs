//! Construction of Succinct ZK proving backends.
//!
//! Creating clients, signers and keys happens outside. The builder is told what
//! became of the last operation and answers with the next one, until the
//! backend is planned completely, fails or is cancelled.

use crate::rpc_url;
use crate::text;
use url::Url;
use vstd::prelude::*;
use vstd::string::*;

verus! {

/// Selects which Succinct backend to construct.
#[derive(Clone, Copy, Debug, PartialEq, Eq, Structural)]
pub enum SuccinctBackendKind {
    /// Return placeholder proof bytes without an external backend.
    Mock,
    /// Return empty proof bytes without an external backend.
    DryRun,
    /// Submit proofs to an SP1 cluster.
    Cluster,
    /// Submit proofs to the Succinct SP1 Network.
    Network,
}

/// Fulfillment mode for Succinct SP1 Network proof requests.
#[derive(Clone, Copy, Debug, PartialEq, Eq, Structural)]
pub enum SuccinctNetworkFulfillmentStrategy {
    /// Submit proofs to reserved SP1 Network capacity.
    Reserved,
    /// Submit proofs to hosted SP1 Network capacity.
    Hosted,
    /// Submit proofs to the SP1 Network auction.
    Auction,
}

/// Fulfillment strategy as the SP1 Network names it.
#[derive(Clone, Copy, Debug, PartialEq, Eq, Structural)]
pub enum FulfillmentStrategy {
    /// Reserved capacity.
    Reserved,
    /// Hosted capacity.
    Hosted,
    /// Auctioned capacity.
    Auction,
}

/// The part of the SP1 Network that serves a fulfillment strategy.
#[derive(Clone, Copy, Debug, PartialEq, Eq, Structural)]
pub enum NetworkMode {
    /// Mainnet, where auctions take place.
    Mainnet,
    /// Reserved and hosted capacity.
    Reserved,
}

/// Requester credential source for Succinct SP1 Network proof requests.
#[derive(Clone, PartialEq, Eq)]
pub enum SuccinctNetworkRequester {
    /// Use a local private key.
    LocalPrivateKey(String),
    /// Load the requester key from AWS KMS.
    AwsKmsKeyId(String),
}

/// SP1 cluster backend construction settings.
#[derive(Clone, Debug, PartialEq, Eq)]
pub struct SuccinctClusterBackendConfig {
    /// SP1 cluster gRPC endpoint.
    pub cluster_rpc_endpoint: Option<String>,
    /// S3 artifact store bucket.
    pub s3_bucket: Option<String>,
    /// S3 artifact store region.
    pub s3_region: Option<String>,
    /// SP1 cluster proof timeout in hours.
    pub timeout_hours: u64,
}

/// SP1 Network backend construction settings.
#[derive(Clone, PartialEq, Eq)]
pub struct SuccinctNetworkBackendConfig {
    /// Requester credential source.
    pub requester: Option<SuccinctNetworkRequester>,
    /// Fulfillment strategy for range proof requests.
    pub fulfillment_strategy: SuccinctNetworkFulfillmentStrategy,
    /// SP1 network proof timeout in hours.
    pub timeout_hours: u64,
}

/// Settings used to construct a concrete Succinct backend.
pub struct SuccinctBackendBuilder {
    /// Backend implementation to construct.
    pub backend: SuccinctBackendKind,
    /// Base consensus node RPC URL.
    pub base_consensus_rpc: Option<Url>,
    /// L1 execution node RPC URL.
    pub l1_rpc: Option<Url>,
    /// L1 beacon node RPC URL.
    pub l1_beacon_rpc: Option<Url>,
    /// L2 execution node RPC URL.
    pub l2_rpc: Option<Url>,
    /// Default sequence window for L1 head calculations.
    pub default_sequence_window: u64,
    /// Cluster backend settings.
    pub cluster: SuccinctClusterBackendConfig,
    /// Network backend settings.
    pub network: SuccinctNetworkBackendConfig,
    /// Cycle limit for range proof requests.
    pub range_cycle_limit: u64,
    /// Gas limit for range proof requests.
    pub range_gas_limit: u64,
}

/// Errors raised while constructing a Succinct backend.
#[derive(Clone, Debug)]
pub enum SuccinctBackendBuildError {
    /// A selected backend is missing a required configuration value.
    MissingConfig {
        /// Selected backend.
        backend: SuccinctBackendKind,
        /// Missing field name.
        field: &'static str,
    },
    /// A timeout value overflowed seconds conversion.
    TimeoutOverflow {
        /// Timeout field name.
        field: &'static str,
    },
    /// Computing the range proving key failed.
    ProvingKeys {
        /// Underlying proving-key setup error.
        source: String,
    },
    /// Creating the Succinct data fetcher failed.
    DataFetcher {
        /// Underlying data-fetcher error.
        source: String,
    },
    /// Creating the SP1 cluster client failed.
    ClusterClient {
        /// Underlying cluster-client error.
        message: String,
    },
    /// Creating the KMS network signer failed.
    KmsNetworkSigner {
        /// Underlying signer error.
        source: String,
    },
    /// Creating the local network signer failed.
    LocalNetworkSigner {
        /// Underlying signer error.
        source: String,
    },
}

/// What went wrong, with texts as character sequences.
pub enum BuildErrorView {
    MissingConfig { backend: SuccinctBackendKind, field: Seq<char> },
    TimeoutOverflow { field: Seq<char> },
    ProvingKeys { source: Seq<char> },
    DataFetcher { source: Seq<char> },
    ClusterClient { message: Seq<char> },
    KmsNetworkSigner { source: Seq<char> },
    LocalNetworkSigner { source: Seq<char> },
}

/// Result type for Succinct backend construction.
pub type SuccinctBackendBuildResult<T> = Result<T, SuccinctBackendBuildError>;

/// RPC endpoints of a data fetcher.
pub struct RpcConfig {
    /// L1 execution node.
    pub l1_rpc: Url,
    /// L1 beacon node.
    pub l1_beacon_rpc: Option<Url>,
    /// L2 execution node.
    pub l2_rpc: Url,
    /// Base consensus node.
    pub l2_node_rpc: Url,
}

/// The serializations of RPC endpoints.
pub struct RpcConfigView {
    pub l1_rpc: Seq<char>,
    pub l1_beacon_rpc: Option<Seq<char>>,
    pub l2_rpc: Seq<char>,
    pub l2_node_rpc: Seq<char>,
}

/// RPC settings of backends that need rollup RPC access.
pub struct RequiredRpcConfig {
    /// Endpoints of the data fetcher.
    pub rpc_config: RpcConfig,
    /// Base consensus node URL.
    pub base_consensus_url: String,
    /// L1 execution node URL.
    pub l1_node_url: String,
}

/// What RPC settings say.
pub struct RequiredRpcConfigView {
    pub rpc_config: RpcConfigView,
    pub base_consensus_url: Seq<char>,
    pub l1_node_url: Seq<char>,
}

/// Settings of a planned cluster backend.
#[derive(Clone, Debug)]
pub struct ClusterPlan {
    /// Base consensus node URL.
    pub base_consensus_url: String,
    /// L1 execution node URL.
    pub l1_node_url: String,
    /// Default sequence window for L1 head calculations.
    pub default_sequence_window: u64,
    /// Cluster gRPC endpoint.
    pub cluster_rpc: String,
    /// Artifact store bucket.
    pub bucket: String,
    /// Artifact store region.
    pub region: String,
    /// Proof timeout in seconds.
    pub timeout_secs: u64,
    /// Cycle limit for range proof requests.
    pub range_cycle_limit: u64,
    /// Gas limit for range proof requests.
    pub range_gas_limit: u64,
}

/// What the settings of a planned cluster backend say.
pub struct ClusterPlanView {
    pub base_consensus_url: Seq<char>,
    pub l1_node_url: Seq<char>,
    pub default_sequence_window: u64,
    pub cluster_rpc: Seq<char>,
    pub bucket: Seq<char>,
    pub region: Seq<char>,
    pub timeout_secs: u64,
    pub range_cycle_limit: u64,
    pub range_gas_limit: u64,
}

/// Settings of a planned network backend.
#[derive(Clone, Debug)]
pub struct NetworkPlan {
    /// Base consensus node URL.
    pub base_consensus_url: String,
    /// L1 execution node URL.
    pub l1_node_url: String,
    /// Default sequence window for L1 head calculations.
    pub default_sequence_window: u64,
    /// Fulfillment strategy of proof requests.
    pub fulfillment_strategy: FulfillmentStrategy,
    /// Proof timeout in seconds.
    pub timeout_secs: u64,
    /// Cycle limit for range proof requests.
    pub range_cycle_limit: u64,
    /// Gas limit for range proof requests.
    pub range_gas_limit: u64,
}

/// What the settings of a planned network backend say.
pub struct NetworkPlanView {
    pub base_consensus_url: Seq<char>,
    pub l1_node_url: Seq<char>,
    pub default_sequence_window: u64,
    pub fulfillment_strategy: FulfillmentStrategy,
    pub timeout_secs: u64,
    pub range_cycle_limit: u64,
    pub range_gas_limit: u64,
}

/// An operation of the construction, whose outcome is awaited.
#[derive(Clone, Copy, Debug, PartialEq, Eq, Structural)]
pub enum BuildStage {
    /// The construction was requested.
    Requested,
    /// Computing the range proving key.
    ProvingKeys,
    /// Creating the data fetcher of the witness provider.
    DataFetcher,
    /// Creating the S3 download client.
    DownloadClient,
    /// Creating the S3 artifact client.
    ArtifactClient,
    /// Creating the cluster client.
    ClusterClient,
    /// Creating the network signer.
    NetworkSigner,
    /// Creating the network prover.
    NetworkProver,
}

/// What became of an operation.
#[derive(Clone, Debug)]
pub enum BuildOutcome {
    /// It completed.
    Completed,
    /// It failed with this message.
    Failed(String),
    /// Cancellation was requested first.
    Cancelled,
}

/// What the construction asks for.
pub enum BuildAction {
    /// Give up: cancellation was requested.
    GiveUp,
    /// Compute the range proving key.
    ComputeProvingKeys,
    /// Create a data fetcher for the endpoints.
    CreateDataFetcher(RpcConfig),
    /// Create an S3 download client.
    CreateDownloadClient {
        /// Region of the artifact store.
        region: String,
    },
    /// Create an S3 artifact client.
    CreateArtifactClient {
        /// Region of the artifact store.
        region: String,
        /// Bucket of the artifact store.
        bucket: String,
        /// Number of concurrent transfers.
        concurrency: usize,
    },
    /// Create a cluster client.
    ConnectCluster {
        /// Cluster gRPC endpoint.
        endpoint: String,
    },
    /// Create a signer from the requester credential.
    CreateSigner(SuccinctNetworkRequester),
    /// Create a network prover.
    CreateNetworkProver(NetworkMode),
    /// The mock backend is complete.
    FinishMock,
    /// The dry-run backend is complete.
    FinishDryRun,
    /// The cluster backend is complete.
    FinishCluster(ClusterPlan),
    /// The network backend is complete.
    FinishNetwork(NetworkPlan),
}

/// What the construction asks for, with texts as character sequences.
pub enum BuildActionView {
    GiveUp,
    ComputeProvingKeys,
    CreateDataFetcher(RpcConfigView),
    CreateDownloadClient { region: Seq<char> },
    CreateArtifactClient { region: Seq<char>, bucket: Seq<char>, concurrency: usize },
    ConnectCluster { endpoint: Seq<char> },
    CreateKmsSigner { key: Seq<char> },
    CreateLocalSigner { key: Seq<char> },
    CreateNetworkProver(NetworkMode),
    FinishMock,
    FinishDryRun,
    FinishCluster(ClusterPlanView),
    FinishNetwork(NetworkPlanView),
}

/// Concurrent transfers of the artifact client.
pub const ARTIFACT_CONCURRENCY: usize = 32;

/// Seconds of an hour.
pub const SECONDS_PER_HOUR: u64 = 3600;

/// The serialization of a URL that may be absent.
pub open spec fn optional_url_text(url: Option<Url>) -> Option<Seq<char>> {
    match url {
        Some(url) => Some(rpc_url::url_text(url)),
        None => None,
    }
}

impl View for RpcConfig {
    type V = RpcConfigView;

    open spec fn view(&self) -> RpcConfigView {
        RpcConfigView {
            l1_rpc: rpc_url::url_text(self.l1_rpc),
            l1_beacon_rpc: optional_url_text(self.l1_beacon_rpc),
            l2_rpc: rpc_url::url_text(self.l2_rpc),
            l2_node_rpc: rpc_url::url_text(self.l2_node_rpc),
        }
    }
}

impl View for RequiredRpcConfig {
    type V = RequiredRpcConfigView;

    open spec fn view(&self) -> RequiredRpcConfigView {
        RequiredRpcConfigView {
            rpc_config: self.rpc_config@,
            base_consensus_url: self.base_consensus_url@,
            l1_node_url: self.l1_node_url@,
        }
    }
}

impl View for ClusterPlan {
    type V = ClusterPlanView;

    open spec fn view(&self) -> ClusterPlanView {
        ClusterPlanView {
            base_consensus_url: self.base_consensus_url@,
            l1_node_url: self.l1_node_url@,
            default_sequence_window: self.default_sequence_window,
            cluster_rpc: self.cluster_rpc@,
            bucket: self.bucket@,
            region: self.region@,
            timeout_secs: self.timeout_secs,
            range_cycle_limit: self.range_cycle_limit,
            range_gas_limit: self.range_gas_limit,
        }
    }
}

impl View for NetworkPlan {
    type V = NetworkPlanView;

    open spec fn view(&self) -> NetworkPlanView {
        NetworkPlanView {
            base_consensus_url: self.base_consensus_url@,
            l1_node_url: self.l1_node_url@,
            default_sequence_window: self.default_sequence_window,
            fulfillment_strategy: self.fulfillment_strategy,
            timeout_secs: self.timeout_secs,
            range_cycle_limit: self.range_cycle_limit,
            range_gas_limit: self.range_gas_limit,
        }
    }
}

impl View for BuildAction {
    type V = BuildActionView;

    open spec fn view(&self) -> BuildActionView {
        match *self {
            BuildAction::GiveUp => BuildActionView::GiveUp,
            BuildAction::ComputeProvingKeys => BuildActionView::ComputeProvingKeys,
            BuildAction::CreateDataFetcher(rpcs) => BuildActionView::CreateDataFetcher(rpcs@),
            BuildAction::CreateDownloadClient { region } => BuildActionView::CreateDownloadClient {
                region: region@,
            },
            BuildAction::CreateArtifactClient { region, bucket, concurrency } => {
                BuildActionView::CreateArtifactClient {
                    region: region@,
                    bucket: bucket@,
                    concurrency,
                }
            },
            BuildAction::ConnectCluster { endpoint } => BuildActionView::ConnectCluster {
                endpoint: endpoint@,
            },
            BuildAction::CreateSigner(requester) => requester.signer_action(),
            BuildAction::CreateNetworkProver(mode) => BuildActionView::CreateNetworkProver(mode),
            BuildAction::FinishMock => BuildActionView::FinishMock,
            BuildAction::FinishDryRun => BuildActionView::FinishDryRun,
            BuildAction::FinishCluster(plan) => BuildActionView::FinishCluster(plan@),
            BuildAction::FinishNetwork(plan) => BuildActionView::FinishNetwork(plan@),
        }
    }
}

impl View for SuccinctBackendBuildError {
    type V = BuildErrorView;

    open spec fn view(&self) -> BuildErrorView {
        match *self {
            SuccinctBackendBuildError::MissingConfig { backend, field } => {
                BuildErrorView::MissingConfig { backend, field: field@ }
            },
            SuccinctBackendBuildError::TimeoutOverflow { field } => {
                BuildErrorView::TimeoutOverflow { field: field@ }
            },
            SuccinctBackendBuildError::ProvingKeys { source } => BuildErrorView::ProvingKeys {
                source: source@,
            },
            SuccinctBackendBuildError::DataFetcher { source } => BuildErrorView::DataFetcher {
                source: source@,
            },
            SuccinctBackendBuildError::ClusterClient { message } => BuildErrorView::ClusterClient {
                message: message@,
            },
            SuccinctBackendBuildError::KmsNetworkSigner { source } => {
                BuildErrorView::KmsNetworkSigner { source: source@ }
            },
            SuccinctBackendBuildError::LocalNetworkSigner { source } => {
                BuildErrorView::LocalNetworkSigner { source: source@ }
            },
        }
    }
}

impl BuildErrorView {
    /// The text of the error.
    pub open spec fn text(self) -> Seq<char> {
        match self {
            BuildErrorView::MissingConfig { backend, field } => field
                + " must be set for ZK_BACKEND="@ + backend.text(),
            BuildErrorView::TimeoutOverflow { field } => field + " is too large"@,
            BuildErrorView::ProvingKeys { source } => "failed to compute proving keys"@,
            BuildErrorView::DataFetcher { source } => "failed to create OPSuccinctDataFetcher"@,
            BuildErrorView::ClusterClient { message } => "failed to create SP1 cluster client: "@
                + message,
            BuildErrorView::KmsNetworkSigner { source } => "failed to create KMS network signer"@,
            BuildErrorView::LocalNetworkSigner { source } => {
                "failed to create local network signer"@
            },
        }
    }
}

impl SuccinctBackendBuildError {
    /// The error as text.
    pub fn to_string(&self) -> (text: String)
        ensures
            text@ == self@.text(),
    {
        match self {
            SuccinctBackendBuildError::MissingConfig { backend, field } => {
                (*field).to_owned().concat(" must be set for ZK_BACKEND=").concat(
                    backend.as_text(),
                )
            },
            SuccinctBackendBuildError::TimeoutOverflow { field } => {
                (*field).to_owned().concat(" is too large")
            },
            SuccinctBackendBuildError::ProvingKeys { source: _ } => {
                "failed to compute proving keys".to_owned()
            },
            SuccinctBackendBuildError::DataFetcher { source: _ } => {
                "failed to create OPSuccinctDataFetcher".to_owned()
            },
            SuccinctBackendBuildError::ClusterClient { message } => {
                "failed to create SP1 cluster client: ".to_owned().concat(message.as_str())
            },
            SuccinctBackendBuildError::KmsNetworkSigner { source: _ } => {
                "failed to create KMS network signer".to_owned()
            },
            SuccinctBackendBuildError::LocalNetworkSigner { source: _ } => {
                "failed to create local network signer".to_owned()
            },
        }
    }
}

impl SuccinctBackendKind {
    /// The name of the backend.
    pub open spec fn text(self) -> Seq<char> {
        match self {
            SuccinctBackendKind::Mock => "mock"@,
            SuccinctBackendKind::DryRun => "dry_run"@,
            SuccinctBackendKind::Cluster => "cluster"@,
            SuccinctBackendKind::Network => "network"@,
        }
    }

    /// The name of the backend as a string slice.
    pub fn as_text(&self) -> (text: &'static str)
        ensures
            text@ == self.text(),
    {
        match self {
            SuccinctBackendKind::Mock => "mock",
            SuccinctBackendKind::DryRun => "dry_run",
            SuccinctBackendKind::Cluster => "cluster",
            SuccinctBackendKind::Network => "network",
        }
    }

    /// The name of the backend.
    pub fn to_string(&self) -> (text: String)
        ensures
            text@ == self.text(),
    {
        self.as_text().to_owned()
    }
}

impl SuccinctNetworkFulfillmentStrategy {
    /// The strategy as the SP1 Network names it.
    pub open spec fn fulfillment(self) -> FulfillmentStrategy {
        match self {
            SuccinctNetworkFulfillmentStrategy::Reserved => FulfillmentStrategy::Reserved,
            SuccinctNetworkFulfillmentStrategy::Hosted => FulfillmentStrategy::Hosted,
            SuccinctNetworkFulfillmentStrategy::Auction => FulfillmentStrategy::Auction,
        }
    }

    /// The part of the SP1 Network that serves the strategy.
    pub open spec fn mode(self) -> NetworkMode {
        if self == SuccinctNetworkFulfillmentStrategy::Auction {
            NetworkMode::Mainnet
        } else {
            NetworkMode::Reserved
        }
    }

    /// The part of the SP1 Network that serves the strategy.
    pub fn network_mode(&self) -> (mode: NetworkMode)
        ensures
            mode == self.mode(),
    {
        match self {
            SuccinctNetworkFulfillmentStrategy::Auction => NetworkMode::Mainnet,
            SuccinctNetworkFulfillmentStrategy::Hosted
            | SuccinctNetworkFulfillmentStrategy::Reserved => NetworkMode::Reserved,
        }
    }
}

impl From<SuccinctNetworkFulfillmentStrategy> for FulfillmentStrategy {
    fn from(strategy: SuccinctNetworkFulfillmentStrategy) -> (fulfillment: Self) {
        match strategy {
            SuccinctNetworkFulfillmentStrategy::Reserved => FulfillmentStrategy::Reserved,
            SuccinctNetworkFulfillmentStrategy::Hosted => FulfillmentStrategy::Hosted,
            SuccinctNetworkFulfillmentStrategy::Auction => FulfillmentStrategy::Auction,
        }
    }
}

impl vstd::std_specs::convert::FromSpecImpl<SuccinctNetworkFulfillmentStrategy>
    for FulfillmentStrategy {
    open spec fn obeys_from_spec() -> bool {
        true
    }

    open spec fn from_spec(strategy: SuccinctNetworkFulfillmentStrategy) -> FulfillmentStrategy {
        strategy.fulfillment()
    }
}

impl SuccinctNetworkRequester {
    /// The requester as it may be shown: what kind of credential it is, without
    /// the credential.
    pub open spec fn redacted(self) -> Seq<char> {
        match self {
            SuccinctNetworkRequester::LocalPrivateKey(key) => "LocalPrivateKey(<redacted>)"@,
            SuccinctNetworkRequester::AwsKmsKeyId(key) => "AwsKmsKeyId(<redacted>)"@,
        }
    }

    /// The requester as it may be shown in logs.
    pub fn debug_text(&self) -> (text: String)
        ensures
            text@ == self.redacted(),
    {
        match self {
            SuccinctNetworkRequester::LocalPrivateKey(_) => {
                "LocalPrivateKey(<redacted>)".to_owned()
            },
            SuccinctNetworkRequester::AwsKmsKeyId(_) => "AwsKmsKeyId(<redacted>)".to_owned(),
        }
    }

    /// Creating the signer of the requester.
    pub open spec fn signer_action(self) -> BuildActionView {
        match self {
            SuccinctNetworkRequester::LocalPrivateKey(key) => BuildActionView::CreateLocalSigner {
                key: key@,
            },
            SuccinctNetworkRequester::AwsKmsKeyId(key) => BuildActionView::CreateKmsSigner {
                key: key@,
            },
        }
    }

    /// The error when the signer of the requester cannot be created.
    pub open spec fn signer_error(self, source: Seq<char>) -> BuildErrorView {
        match self {
            SuccinctNetworkRequester::LocalPrivateKey(key) => BuildErrorView::LocalNetworkSigner {
                source,
            },
            SuccinctNetworkRequester::AwsKmsKeyId(key) => BuildErrorView::KmsNetworkSigner {
                source,
            },
        }
    }

    /// The same requester again.
    fn copy(&self) -> (requester: SuccinctNetworkRequester)
        ensures
            requester.signer_action() == self.signer_action(),
    {
        match self {
            SuccinctNetworkRequester::LocalPrivateKey(key) => {
                SuccinctNetworkRequester::LocalPrivateKey(key.clone())
            },
            SuccinctNetworkRequester::AwsKmsKeyId(key) => {
                SuccinctNetworkRequester::AwsKmsKeyId(key.clone())
            },
        }
    }
}

/// A value that a backend requires.
pub open spec fn required<T>(
    value: Option<T>,
    backend: SuccinctBackendKind,
    field: Seq<char>,
) -> Result<T, BuildErrorView> {
    match value {
        Some(value) => Ok(value),
        None => Err(BuildErrorView::MissingConfig { backend, field }),
    }
}

/// A text that the cluster backend requires: it counts as absent where nothing
/// but white space is left of it.
pub open spec fn required_text(
    value: Option<Seq<char>>,
    field: Seq<char>,
) -> Result<Seq<char>, BuildErrorView> {
    let given = match value {
        Some(text) => if text::trimmed(text).len() > 0 {
            Some(text::trimmed(text))
        } else {
            None
        },
        None => None,
    };
    required(given, SuccinctBackendKind::Cluster, field)
}

/// A timeout in hours as seconds.
pub open spec fn timeout_seconds(hours: u64, field: Seq<char>) -> Result<u64, BuildErrorView> {
    if hours * SECONDS_PER_HOUR <= u64::MAX {
        Ok((hours * SECONDS_PER_HOUR) as u64)
    } else {
        Err(BuildErrorView::TimeoutOverflow { field })
    }
}

/// A text that may be absent.
pub open spec fn optional_text(value: Option<String>) -> Option<Seq<char>> {
    match value {
        Some(text) => Some(text@),
        None => None,
    }
}

/// A construction result with its contents as views.
pub open spec fn build_view(result: SuccinctBackendBuildResult<BuildAction>) -> Result<
    BuildActionView,
    BuildErrorView,
> {
    match result {
        Ok(action) => Ok(action@),
        Err(error) => Err(error@),
    }
}

impl SuccinctBackendKind {
    /// The stage belongs to the construction of the backend.
    pub open spec fn has_stage(self, stage: BuildStage) -> bool {
        match stage {
            BuildStage::Requested => true,
            BuildStage::DataFetcher => self == SuccinctBackendKind::Cluster || self
                == SuccinctBackendKind::Network,
            BuildStage::DownloadClient => self == SuccinctBackendKind::Cluster,
            BuildStage::ArtifactClient => self == SuccinctBackendKind::Cluster,
            BuildStage::ClusterClient => self == SuccinctBackendKind::Cluster,
            BuildStage::ProvingKeys => self == SuccinctBackendKind::Network,
            BuildStage::NetworkSigner => self == SuccinctBackendKind::Network,
            BuildStage::NetworkProver => self == SuccinctBackendKind::Network,
        }
    }
}

impl BuildStage {
    /// The operation of the stage can fail.
    pub open spec fn can_fail(self) -> bool {
        self is ProvingKeys || self is DataFetcher || self is ClusterClient || self is NetworkSigner
    }

    /// The outcome is one that the stage of a backend's construction can have.
    pub open spec fn admits(self, backend: SuccinctBackendKind, outcome: BuildOutcome) -> bool {
        backend.has_stage(self) && (outcome is Failed ==> self.can_fail())
    }

    /// Whether the outcome is one that the stage of a backend's construction can
    /// have.
    pub fn accepts(&self, backend: SuccinctBackendKind, outcome: &BuildOutcome) -> (accepts: bool)
        ensures
            accepts == self.admits(backend, *outcome),
    {
        let failed = match outcome {
            BuildOutcome::Failed(_) => true,
            _ => false,
        };
        match (backend, *self) {
            (_, BuildStage::Requested) => !failed,
            (SuccinctBackendKind::Cluster, BuildStage::DataFetcher) => true,
            (SuccinctBackendKind::Cluster, BuildStage::DownloadClient) => !failed,
            (SuccinctBackendKind::Cluster, BuildStage::ArtifactClient) => !failed,
            (SuccinctBackendKind::Cluster, BuildStage::ClusterClient) => true,
            (SuccinctBackendKind::Network, BuildStage::ProvingKeys) => true,
            (SuccinctBackendKind::Network, BuildStage::DataFetcher) => true,
            (SuccinctBackendKind::Network, BuildStage::NetworkSigner) => true,
            (SuccinctBackendKind::Network, BuildStage::NetworkProver) => !failed,
            _ => false,
        }
    }
}

impl BuildActionView {
    /// The stage whose outcome the action awaits; `None` where the construction
    /// has ended.
    pub open spec fn awaits(self) -> Option<BuildStage> {
        match self {
            BuildActionView::ComputeProvingKeys => Some(BuildStage::ProvingKeys),
            BuildActionView::CreateDataFetcher(rpcs) => Some(BuildStage::DataFetcher),
            BuildActionView::CreateDownloadClient { region } => Some(BuildStage::DownloadClient),
            BuildActionView::CreateArtifactClient { region, bucket, concurrency } => Some(
                BuildStage::ArtifactClient,
            ),
            BuildActionView::ConnectCluster { endpoint } => Some(BuildStage::ClusterClient),
            BuildActionView::CreateKmsSigner { key } => Some(BuildStage::NetworkSigner),
            BuildActionView::CreateLocalSigner { key } => Some(BuildStage::NetworkSigner),
            BuildActionView::CreateNetworkProver(mode) => Some(BuildStage::NetworkProver),
            _ => None,
        }
    }
}

impl BuildAction {
    /// The stage whose outcome the action awaits; `None` where the construction
    /// has ended.
    pub fn awaited_stage(&self) -> (stage: Option<BuildStage>)
        ensures
            stage == self@.awaits(),
    {
        match self {
            BuildAction::ComputeProvingKeys => Some(BuildStage::ProvingKeys),
            BuildAction::CreateDataFetcher(_) => Some(BuildStage::DataFetcher),
            BuildAction::CreateDownloadClient { region: _ } => Some(BuildStage::DownloadClient),
            BuildAction::CreateArtifactClient { region: _, bucket: _, concurrency: _ } => Some(
                BuildStage::ArtifactClient,
            ),
            BuildAction::ConnectCluster { endpoint: _ } => Some(BuildStage::ClusterClient),
            BuildAction::CreateSigner(_) => Some(BuildStage::NetworkSigner),
            BuildAction::CreateNetworkProver(_) => Some(BuildStage::NetworkProver),
            _ => None,
        }
    }
}

impl SuccinctBackendBuilder {
    /// A URL that the selected backend requires.
    pub open spec fn url(self, url: Option<Url>, field: Seq<char>) -> Result<
        Seq<char>,
        BuildErrorView,
    > {
        required(optional_url_text(url), self.backend, field)
    }

    /// The required RPC settings; the first one that is missing is reported.
    pub open spec fn rpcs(self) -> Result<RequiredRpcConfigView, BuildErrorView> {
        match self.url(self.l1_rpc, "L1_NODE_ADDRESS"@) {
            Err(error) => Err(error),
            Ok(l1_rpc) => match self.url(self.l1_beacon_rpc, "L1_BEACON_ADDRESS"@) {
                Err(error) => Err(error),
                Ok(l1_beacon_rpc) => match self.url(self.l2_rpc, "L2_NODE_ADDRESS"@) {
                    Err(error) => Err(error),
                    Ok(l2_rpc) => match self.url(
                        self.base_consensus_rpc,
                        "BASE_CONSENSUS_ADDRESS"@,
                    ) {
                        Err(error) => Err(error),
                        Ok(base_consensus_rpc) => Ok(
                            RequiredRpcConfigView {
                                rpc_config: RpcConfigView {
                                    l1_rpc,
                                    l1_beacon_rpc: Some(l1_beacon_rpc),
                                    l2_rpc,
                                    l2_node_rpc: base_consensus_rpc,
                                },
                                base_consensus_url: base_consensus_rpc,
                                l1_node_url: l1_rpc,
                            },
                        ),
                    },
                },
            },
        }
    }

    /// The required cluster endpoint.
    pub open spec fn endpoint(self) -> Result<Seq<char>, BuildErrorView> {
        required_text(
            optional_text(self.cluster.cluster_rpc_endpoint),
            "SP1_CLUSTER_API_ENDPOINT"@,
        )
    }

    /// The required bucket and region of the artifact store.
    pub open spec fn artifact_store(self) -> Result<(Seq<char>, Seq<char>), BuildErrorView> {
        match required_text(optional_text(self.cluster.s3_bucket), "CLI_S3_BUCKET"@) {
            Err(error) => Err(error),
            Ok(bucket) => match required_text(
                optional_text(self.cluster.s3_region),
                "CLI_S3_REGION"@,
            ) {
                Err(error) => Err(error),
                Ok(region) => Ok((bucket, region)),
            },
        }
    }

    /// The required network requester.
    pub open spec fn requester(self) -> Result<SuccinctNetworkRequester, BuildErrorView> {
        required(
            self.network.requester,
            SuccinctBackendKind::Network,
            "NETWORK_PRIVATE_KEY"@,
        )
    }

    /// The complete cluster backend.
    pub open spec fn cluster_plan(self) -> Result<BuildActionView, BuildErrorView> {
        match self.rpcs() {
            Err(error) => Err(error),
            Ok(rpcs) => match self.endpoint() {
                Err(error) => Err(error),
                Ok(cluster_rpc) => match self.artifact_store() {
                    Err(error) => Err(error),
                    Ok(store) => match timeout_seconds(
                        self.cluster.timeout_hours,
                        "SP1_CLUSTER_TIMEOUT_HOURS"@,
                    ) {
                        Err(error) => Err(error),
                        Ok(timeout_secs) => Ok(
                            BuildActionView::FinishCluster(
                                ClusterPlanView {
                                    base_consensus_url: rpcs.base_consensus_url,
                                    l1_node_url: rpcs.l1_node_url,
                                    default_sequence_window: self.default_sequence_window,
                                    cluster_rpc,
                                    bucket: store.0,
                                    region: store.1,
                                    timeout_secs,
                                    range_cycle_limit: self.range_cycle_limit,
                                    range_gas_limit: self.range_gas_limit,
                                },
                            ),
                        ),
                    },
                },
            },
        }
    }

    /// The complete network backend.
    pub open spec fn network_plan(self) -> Result<BuildActionView, BuildErrorView> {
        match self.rpcs() {
            Err(error) => Err(error),
            Ok(rpcs) => match self.requester() {
                Err(error) => Err(error),
                Ok(requester) => match timeout_seconds(
                    self.network.timeout_hours,
                    "SP1_NETWORK_TIMEOUT_HOURS"@,
                ) {
                    Err(error) => Err(error),
                    Ok(timeout_secs) => Ok(
                        BuildActionView::FinishNetwork(
                            NetworkPlanView {
                                base_consensus_url: rpcs.base_consensus_url,
                                l1_node_url: rpcs.l1_node_url,
                                default_sequence_window: self.default_sequence_window,
                                fulfillment_strategy:
                                    self.network.fulfillment_strategy.fulfillment(),
                                timeout_secs,
                                range_cycle_limit: self.range_cycle_limit,
                                range_gas_limit: self.range_gas_limit,
                            },
                        ),
                    ),
                },
            },
        }
    }

    /// What the construction of the cluster backend asks for after a stage.
    pub open spec fn cluster_step(self, stage: BuildStage) -> Result<
        BuildActionView,
        BuildErrorView,
    > {
        match stage {
            BuildStage::Requested => match self.rpcs() {
                Err(error) => Err(error),
                Ok(rpcs) => match self.endpoint() {
                    Err(error) => Err(error),
                    Ok(endpoint) => Ok(BuildActionView::CreateDataFetcher(rpcs.rpc_config)),
                },
            },
            BuildStage::DataFetcher => match self.artifact_store() {
                Err(error) => Err(error),
                Ok(store) => Ok(BuildActionView::CreateDownloadClient { region: store.1 }),
            },
            BuildStage::DownloadClient => match self.artifact_store() {
                Err(error) => Err(error),
                Ok(store) => Ok(
                    BuildActionView::CreateArtifactClient {
                        region: store.1,
                        bucket: store.0,
                        concurrency: ARTIFACT_CONCURRENCY,
                    },
                ),
            },
            BuildStage::ArtifactClient => match self.endpoint() {
                Err(error) => Err(error),
                Ok(endpoint) => Ok(BuildActionView::ConnectCluster { endpoint }),
            },
            _ => self.cluster_plan(),
        }
    }

    /// What the construction of the network backend asks for after a stage.
    pub open spec fn network_step(self, stage: BuildStage) -> Result<
        BuildActionView,
        BuildErrorView,
    > {
        match stage {
            BuildStage::Requested => match self.rpcs() {
                Err(error) => Err(error),
                Ok(rpcs) => Ok(BuildActionView::ComputeProvingKeys),
            },
            BuildStage::ProvingKeys => match self.rpcs() {
                Err(error) => Err(error),
                Ok(rpcs) => Ok(BuildActionView::CreateDataFetcher(rpcs.rpc_config)),
            },
            BuildStage::DataFetcher => match self.requester() {
                Err(error) => Err(error),
                Ok(requester) => Ok(requester.signer_action()),
            },
            BuildStage::NetworkSigner => match self.requester() {
                Err(error) => Err(error),
                Ok(requester) => Ok(
                    BuildActionView::CreateNetworkProver(self.network.fulfillment_strategy.mode()),
                ),
            },
            _ => self.network_plan(),
        }
    }

    /// The error of a failed stage.
    pub open spec fn failure(self, stage: BuildStage, message: Seq<char>) -> BuildErrorView {
        match stage {
            BuildStage::ProvingKeys => BuildErrorView::ProvingKeys { source: message },
            BuildStage::DataFetcher => BuildErrorView::DataFetcher { source: message },
            BuildStage::NetworkSigner => match self.requester() {
                Ok(requester) => requester.signer_error(message),
                Err(error) => error,
            },
            _ => BuildErrorView::ClusterClient { message },
        }
    }

    /// What the construction asks for after a stage had an outcome.
    pub open spec fn step(self, stage: BuildStage, outcome: BuildOutcome) -> Result<
        BuildActionView,
        BuildErrorView,
    > {
        match outcome {
            BuildOutcome::Cancelled => Ok(BuildActionView::GiveUp),
            BuildOutcome::Failed(message) => Err(self.failure(stage, message@)),
            BuildOutcome::Completed => match self.backend {
                SuccinctBackendKind::Mock => Ok(BuildActionView::FinishMock),
                SuccinctBackendKind::DryRun => Ok(BuildActionView::FinishDryRun),
                SuccinctBackendKind::Cluster => self.cluster_step(stage),
                SuccinctBackendKind::Network => self.network_step(stage),
            },
        }
    }

    /// One step of building the selected backend: what to do after a stage had
    /// an outcome. The construction begins with the request, which completes
    /// unless cancellation was requested before it.
    pub fn build(&self, stage: BuildStage, outcome: &BuildOutcome) -> (result:
        SuccinctBackendBuildResult<BuildAction>)
        requires
            stage.admits(self.backend, *outcome),
        ensures
            build_view(result) == self.step(stage, *outcome),
    {
        match outcome {
            BuildOutcome::Cancelled => Ok(BuildAction::GiveUp),
            BuildOutcome::Failed(message) => Err(self.failed_stage(stage, message)),
            BuildOutcome::Completed => match self.backend {
                SuccinctBackendKind::Mock => Ok(BuildAction::FinishMock),
                SuccinctBackendKind::DryRun => Ok(BuildAction::FinishDryRun),
                SuccinctBackendKind::Cluster => self.build_cluster_backend(stage),
                SuccinctBackendKind::Network => self.build_network_backend(stage),
            },
        }
    }

    /// One step of building the SP1 cluster backend.
    fn build_cluster_backend(&self, stage: BuildStage) -> (result: SuccinctBackendBuildResult<
        BuildAction,
    >)
        ensures
            build_view(result) == self.cluster_step(stage),
    {
        match stage {
            BuildStage::Requested => {
                let rpcs = match self.required_rpcs() {
                    Ok(rpcs) => rpcs,
                    Err(error) => return Err(error),
                };
                match self.required_endpoint() {
                    Ok(_) => Ok(BuildAction::CreateDataFetcher(rpcs.rpc_config)),
                    Err(error) => Err(error),
                }
            },
            BuildStage::DataFetcher => match self.cluster_artifact_store() {
                Ok((_, region)) => Ok(BuildAction::CreateDownloadClient { region }),
                Err(error) => Err(error),
            },
            BuildStage::DownloadClient => match self.cluster_artifact_store() {
                Ok((bucket, region)) => Ok(
                    BuildAction::CreateArtifactClient {
                        region,
                        bucket,
                        concurrency: ARTIFACT_CONCURRENCY,
                    },
                ),
                Err(error) => Err(error),
            },
            BuildStage::ArtifactClient => match self.required_endpoint() {
                Ok(endpoint) => Ok(
                    BuildAction::ConnectCluster { endpoint: endpoint.to_owned() },
                ),
                Err(error) => Err(error),
            },
            _ => {
                let rpcs = match self.required_rpcs() {
                    Ok(rpcs) => rpcs,
                    Err(error) => return Err(error),
                };
                let cluster_rpc = match self.required_endpoint() {
                    Ok(endpoint) => endpoint.to_owned(),
                    Err(error) => return Err(error),
                };
                let (bucket, region) = match self.cluster_artifact_store() {
                    Ok(store) => store,
                    Err(error) => return Err(error),
                };
                let timeout_secs: u64 = match self.cluster_timeout() {
                    Ok(seconds) => seconds,
                    Err(error) => return Err(error),
                };
                Ok(
                    BuildAction::FinishCluster(
                        ClusterPlan {
                            base_consensus_url: rpcs.base_consensus_url,
                            l1_node_url: rpcs.l1_node_url,
                            default_sequence_window: self.default_sequence_window,
                            cluster_rpc,
                            bucket,
                            region,
                            timeout_secs,
                            range_cycle_limit: self.range_cycle_limit,
                            range_gas_limit: self.range_gas_limit,
                        },
                    ),
                )
            },
        }
    }

    /// One step of building the SP1 Network backend.
    fn build_network_backend(&self, stage: BuildStage) -> (result: SuccinctBackendBuildResult<
        BuildAction,
    >)
        ensures
            build_view(result) == self.network_step(stage),
    {
        match stage {
            BuildStage::Requested => match self.required_rpcs() {
                Ok(_) => Ok(BuildAction::ComputeProvingKeys),
                Err(error) => Err(error),
            },
            BuildStage::ProvingKeys => match self.required_rpcs() {
                Ok(rpcs) => Ok(BuildAction::CreateDataFetcher(rpcs.rpc_config)),
                Err(error) => Err(error),
            },
            BuildStage::DataFetcher => match self.network_requester() {
                Ok(requester) => Ok(BuildAction::CreateSigner(requester.copy())),
                Err(error) => Err(error),
            },
            BuildStage::NetworkSigner => match self.network_requester() {
                Ok(_) => Ok(
                    BuildAction::CreateNetworkProver(
                        self.network.fulfillment_strategy.network_mode(),
                    ),
                ),
                Err(error) => Err(error),
            },
            _ => {
                let rpcs = match self.required_rpcs() {
                    Ok(rpcs) => rpcs,
                    Err(error) => return Err(error),
                };
                if let Err(error) = self.network_requester() {
                    return Err(error);
                }
                let timeout_secs: u64 = match self.network_timeout() {
                    Ok(seconds) => seconds,
                    Err(error) => return Err(error),
                };
                Ok(
                    BuildAction::FinishNetwork(
                        NetworkPlan {
                            base_consensus_url: rpcs.base_consensus_url,
                            l1_node_url: rpcs.l1_node_url,
                            default_sequence_window: self.default_sequence_window,
                            fulfillment_strategy: FulfillmentStrategy::from(
                                self.network.fulfillment_strategy,
                            ),
                            timeout_secs,
                            range_cycle_limit: self.range_cycle_limit,
                            range_gas_limit: self.range_gas_limit,
                        },
                    ),
                )
            },
        }
    }

    /// The error of a failed stage.
    fn failed_stage(&self, stage: BuildStage, message: &String) -> (error:
        SuccinctBackendBuildError)
        ensures
            error@ == self.failure(stage, message@),
    {
        match stage {
            BuildStage::ProvingKeys => SuccinctBackendBuildError::ProvingKeys {
                source: message.clone(),
            },
            BuildStage::DataFetcher => SuccinctBackendBuildError::DataFetcher {
                source: message.clone(),
            },
            BuildStage::NetworkSigner => match self.network_requester() {
                Ok(SuccinctNetworkRequester::LocalPrivateKey(_)) => {
                    SuccinctBackendBuildError::LocalNetworkSigner { source: message.clone() }
                },
                Ok(SuccinctNetworkRequester::AwsKmsKeyId(_)) => {
                    SuccinctBackendBuildError::KmsNetworkSigner { source: message.clone() }
                },
                Err(error) => error,
            },
            _ => SuccinctBackendBuildError::ClusterClient { message: message.clone() },
        }
    }

    /// Return required RPC config for backends that need rollup RPC access.
    pub fn required_rpcs(&self) -> (result: SuccinctBackendBuildResult<RequiredRpcConfig>)
        ensures
            match result {
                Ok(rpcs) => self.rpcs() == Ok::<RequiredRpcConfigView, BuildErrorView>(rpcs@),
                Err(error) => self.rpcs() == Err::<RequiredRpcConfigView, BuildErrorView>(error@),
            },
            result is Ok <==> self.l1_rpc is Some && self.l1_beacon_rpc is Some && self.l2_rpc
                is Some && self.base_consensus_rpc is Some,
            result is Ok ==> {
                let rpcs = result->Ok_0;
                let consensus = rpc_url::url_text(self.base_consensus_rpc->0);
                &&& rpc_url::url_text(rpcs.rpc_config.l1_rpc) == rpc_url::url_text(self.l1_rpc->0)
                &&& rpcs.rpc_config.l1_beacon_rpc is Some
                &&& rpc_url::url_text(rpcs.rpc_config.l1_beacon_rpc->0) == rpc_url::url_text(
                    self.l1_beacon_rpc->0,
                )
                &&& rpc_url::url_text(rpcs.rpc_config.l2_rpc) == rpc_url::url_text(self.l2_rpc->0)
                &&& rpc_url::url_text(rpcs.rpc_config.l2_node_rpc) == consensus
                &&& rpcs.base_consensus_url@ == consensus
                &&& rpcs.l1_node_url@ == rpc_url::url_text(self.l1_rpc->0)
            },
    {
        let l1_rpc = match self.required_url(&self.l1_rpc, "L1_NODE_ADDRESS") {
            Ok(url) => url,
            Err(error) => return Err(error),
        };
        let l1_beacon_rpc = match self.required_url(&self.l1_beacon_rpc, "L1_BEACON_ADDRESS") {
            Ok(url) => url,
            Err(error) => return Err(error),
        };
        let l2_rpc = match self.required_url(&self.l2_rpc, "L2_NODE_ADDRESS") {
            Ok(url) => url,
            Err(error) => return Err(error),
        };
        let base_consensus_rpc = match self.required_url(
            &self.base_consensus_rpc,
            "BASE_CONSENSUS_ADDRESS",
        ) {
            Ok(url) => url,
            Err(error) => return Err(error),
        };
        Ok(
            RequiredRpcConfig {
                rpc_config: RpcConfig {
                    l1_rpc: rpc_url::clone_url(l1_rpc),
                    l1_beacon_rpc: Some(rpc_url::clone_url(l1_beacon_rpc)),
                    l2_rpc: rpc_url::clone_url(l2_rpc),
                    l2_node_rpc: rpc_url::clone_url(base_consensus_rpc),
                },
                base_consensus_url: rpc_url::url_as_str(base_consensus_rpc).to_owned(),
                l1_node_url: rpc_url::url_as_str(l1_rpc).to_owned(),
            },
        )
    }

    /// Return a required URL config value.
    pub fn required_url<'a>(&self, value: &'a Option<Url>, field: &'static str) -> (result:
        SuccinctBackendBuildResult<&'a Url>)
        ensures
            match result {
                Ok(url) => *value == Some(*url),
                Err(error) => *value is None && error@ == (BuildErrorView::MissingConfig {
                    backend: self.backend,
                    field: field@,
                }),
            },
    {
        match value {
            Some(url) => Ok(url),
            None => Err(
                SuccinctBackendBuildError::MissingConfig { backend: self.backend, field },
            ),
        }
    }

    /// Return a required cluster config value.
    pub fn required_cluster_value<'a>(&self, value: &'a Option<String>, field: &'static str) -> (
    result: SuccinctBackendBuildResult<&'a str>)
        ensures
            match result {
                Ok(text) => required_text(optional_text(*value), field@) == Ok::<
                    Seq<char>,
                    BuildErrorView,
                >(text@),
                Err(error) => required_text(optional_text(*value), field@) == Err::<
                    Seq<char>,
                    BuildErrorView,
                >(error@),
            },
    {
        if let Some(text) = value {
            let inner = text::trim(text.as_str());
            if inner.unicode_len() > 0 {
                return Ok(inner);
            }
        }
        Err(
            SuccinctBackendBuildError::MissingConfig {
                backend: SuccinctBackendKind::Cluster,
                field,
            },
        )
    }

    /// Return the required cluster endpoint.
    fn required_endpoint(&self) -> (result: SuccinctBackendBuildResult<&str>)
        ensures
            match result {
                Ok(text) => self.endpoint() == Ok::<Seq<char>, BuildErrorView>(text@),
                Err(error) => self.endpoint() == Err::<Seq<char>, BuildErrorView>(error@),
            },
    {
        self.required_cluster_value(
            &self.cluster.cluster_rpc_endpoint,
            "SP1_CLUSTER_API_ENDPOINT",
        )
    }

    /// Return the bucket and the region of the cluster artifact store.
    fn cluster_artifact_store(&self) -> (result: SuccinctBackendBuildResult<(String, String)>)
        ensures
            match result {
                Ok((bucket, region)) => self.artifact_store() == Ok::<
                    (Seq<char>, Seq<char>),
                    BuildErrorView,
                >((bucket@, region@)),
                Err(error) => self.artifact_store() == Err::<
                    (Seq<char>, Seq<char>),
                    BuildErrorView,
                >(error@),
            },
    {
        let bucket = match self.required_cluster_value(&self.cluster.s3_bucket, "CLI_S3_BUCKET") {
            Ok(text) => text.to_owned(),
            Err(error) => return Err(error),
        };
        let region = match self.required_cluster_value(&self.cluster.s3_region, "CLI_S3_REGION") {
            Ok(text) => text.to_owned(),
            Err(error) => return Err(error),
        };
        Ok((bucket, region))
    }

    /// Return the required network requester.
    fn network_requester(&self) -> (result: SuccinctBackendBuildResult<&SuccinctNetworkRequester>)
        ensures
            match result {
                Ok(requester) => self.requester() == Ok::<SuccinctNetworkRequester, BuildErrorView>(
                    *requester,
                ),
                Err(error) => self.requester() == Err::<SuccinctNetworkRequester, BuildErrorView>(
                    error@,
                ),
            },
    {
        match &self.network.requester {
            Some(requester) => Ok(requester),
            None => Err(
                SuccinctBackendBuildError::MissingConfig {
                    backend: SuccinctBackendKind::Network,
                    field: "NETWORK_PRIVATE_KEY",
                },
            ),
        }
    }

    /// Return the cluster timeout in seconds.
    pub fn cluster_timeout(&self) -> (result: SuccinctBackendBuildResult<u64>)
        ensures
            match result {
                Ok(seconds) => seconds == self.cluster.timeout_hours * SECONDS_PER_HOUR,
                Err(error) => {
                    &&& self.cluster.timeout_hours * SECONDS_PER_HOUR > u64::MAX
                    &&& error@ == (BuildErrorView::TimeoutOverflow {
                        field: "SP1_CLUSTER_TIMEOUT_HOURS"@,
                    })
                },
            },
    {
        Self::timeout(self.cluster.timeout_hours, "SP1_CLUSTER_TIMEOUT_HOURS")
    }

    /// Return the network timeout in seconds.
    pub fn network_timeout(&self) -> (result: SuccinctBackendBuildResult<u64>)
        ensures
            match result {
                Ok(seconds) => seconds == self.network.timeout_hours * SECONDS_PER_HOUR,
                Err(error) => {
                    &&& self.network.timeout_hours * SECONDS_PER_HOUR > u64::MAX
                    &&& error@ == (BuildErrorView::TimeoutOverflow {
                        field: "SP1_NETWORK_TIMEOUT_HOURS"@,
                    })
                },
            },
    {
        Self::timeout(self.network.timeout_hours, "SP1_NETWORK_TIMEOUT_HOURS")
    }

    /// Convert a timeout in hours into seconds.
    pub fn timeout(timeout_hours: u64, field: &'static str) -> (result: SuccinctBackendBuildResult<
        u64,
    >)
        ensures
            match result {
                Ok(seconds) => seconds == timeout_hours * SECONDS_PER_HOUR,
                Err(error) => timeout_hours * SECONDS_PER_HOUR > u64::MAX && error@ == (
                BuildErrorView::TimeoutOverflow { field: field@ }),
            },
    {
        match timeout_hours.checked_mul(SECONDS_PER_HOUR) {
            Some(seconds) => Ok(seconds),
            None => Err(SuccinctBackendBuildError::TimeoutOverflow { field }),
        }
    }
}

/// A cancelled operation ends the construction without a backend and without an
/// error, at every stage and under every configuration.
pub proof fn law_cancelled_build_gives_nothing(
    builder: SuccinctBackendBuilder,
    stage: BuildStage,
)
    ensures
        builder.step(stage, BuildOutcome::Cancelled) == Ok::<BuildActionView, BuildErrorView>(
            BuildActionView::GiveUp,
        ),
{
}

/// The position of a stage in the construction.
pub open spec fn stage_rank(stage: BuildStage) -> nat {
    match stage {
        BuildStage::Requested => 0,
        BuildStage::ProvingKeys => 1,
        BuildStage::DataFetcher => 2,
        BuildStage::DownloadClient => 3,
        BuildStage::ArtifactClient => 4,
        BuildStage::ClusterClient => 5,
        BuildStage::NetworkSigner => 6,
        BuildStage::NetworkProver => 7,
    }
}

/// The construction ends: what a step awaits is a later stage of the same
/// backend's construction.
pub proof fn law_build_moves_forward(
    builder: SuccinctBackendBuilder,
    stage: BuildStage,
    outcome: BuildOutcome,
)
    requires
        stage.admits(builder.backend, outcome),
        builder.step(stage, outcome) is Ok,
        builder.step(stage, outcome)->Ok_0.awaits() is Some,
    ensures
        builder.backend.has_stage(builder.step(stage, outcome)->Ok_0.awaits()->0),
        stage_rank(builder.step(stage, outcome)->Ok_0.awaits()->0) > stage_rank(stage),
{
}

/// A backend without external services needs no configuration.
pub proof fn law_local_backends_need_nothing(builder: SuccinctBackendBuilder)
    requires
        builder.backend == SuccinctBackendKind::Mock || builder.backend
            == SuccinctBackendKind::DryRun,
    ensures
        builder.step(BuildStage::Requested, BuildOutcome::Completed) is Ok,
        builder.step(BuildStage::Requested, BuildOutcome::Completed)->Ok_0.awaits() is None,
{
}

/// A cluster or network backend is started only with all four RPC endpoints;
/// otherwise the first one that is missing is named, before anything is done.
pub proof fn law_rpcs_are_required(builder: SuccinctBackendBuilder)
    requires
        builder.backend == SuccinctBackendKind::Cluster || builder.backend
            == SuccinctBackendKind::Network,
        builder.l1_rpc is None || builder.l1_beacon_rpc is None || builder.l2_rpc is None
            || builder.base_consensus_rpc is None,
    ensures
        builder.step(BuildStage::Requested, BuildOutcome::Completed) == Err::<
            BuildActionView,
            BuildErrorView,
        >(
            BuildErrorView::MissingConfig {
                backend: builder.backend,
                field: if builder.l1_rpc is None {
                    "L1_NODE_ADDRESS"@
                } else if builder.l1_beacon_rpc is None {
                    "L1_BEACON_ADDRESS"@
                } else if builder.l2_rpc is None {
                    "L2_NODE_ADDRESS"@
                } else {
                    "BASE_CONSENSUS_ADDRESS"@
                },
            },
        ),
{
}

/// With everything configured, the construction of the cluster backend runs
/// through its operations in order, each one once, and ends with the backend.
pub proof fn law_cluster_build_completes(builder: SuccinctBackendBuilder)
    requires
        builder.backend == SuccinctBackendKind::Cluster,
        builder.cluster_plan() is Ok,
    ensures
        ({
            let after = |stage: BuildStage|
                builder.step(stage, BuildOutcome::Completed)->Ok_0.awaits();
            &&& after(BuildStage::Requested) == Some(BuildStage::DataFetcher)
            &&& after(BuildStage::DataFetcher) == Some(BuildStage::DownloadClient)
            &&& after(BuildStage::DownloadClient) == Some(BuildStage::ArtifactClient)
            &&& after(BuildStage::ArtifactClient) == Some(BuildStage::ClusterClient)
            &&& builder.step(BuildStage::ClusterClient, BuildOutcome::Completed)
                == builder.cluster_plan()
        }),
{
}

/// With everything configured, the construction of the network backend runs
/// through its operations in order, each one once, and ends with the backend.
pub proof fn law_network_build_completes(builder: SuccinctBackendBuilder)
    requires
        builder.backend == SuccinctBackendKind::Network,
        builder.network_plan() is Ok,
    ensures
        ({
            let after = |stage: BuildStage|
                builder.step(stage, BuildOutcome::Completed)->Ok_0.awaits();
            &&& after(BuildStage::Requested) == Some(BuildStage::ProvingKeys)
            &&& after(BuildStage::ProvingKeys) == Some(BuildStage::DataFetcher)
            &&& after(BuildStage::DataFetcher) == Some(BuildStage::NetworkSigner)
            &&& after(BuildStage::NetworkSigner) == Some(BuildStage::NetworkProver)
            &&& builder.step(BuildStage::NetworkProver, BuildOutcome::Completed)
                == builder.network_plan()
        }),
{
}

/// From the data fetcher on, the construction of the network backend goes on
/// only with a requester, so that a finished network backend had one.
pub proof fn law_network_build_has_requester(builder: SuccinctBackendBuilder, stage: BuildStage)
    requires
        builder.backend == SuccinctBackendKind::Network,
        builder.backend.has_stage(stage),
        stage_rank(stage) >= stage_rank(BuildStage::DataFetcher),
        builder.step(stage, BuildOutcome::Completed) is Ok,
    ensures
        builder.network.requester is Some,
{
}

/// Without a requester no outcome of any stage finishes the network backend.
pub proof fn law_network_build_needs_requester(
    builder: SuccinctBackendBuilder,
    stage: BuildStage,
    outcome: BuildOutcome,
)
    requires
        builder.backend == SuccinctBackendKind::Network,
        builder.network.requester is None,
    ensures
        !(builder.step(stage, outcome) is Ok && builder.step(stage, outcome)->Ok_0
            is FinishNetwork),
{
}

/// A requester is shown alike whatever its credential is.
pub proof fn law_credentials_are_redacted(key: String, other: String)
    ensures
        SuccinctNetworkRequester::LocalPrivateKey(key).redacted()
            == SuccinctNetworkRequester::LocalPrivateKey(other).redacted(),
        SuccinctNetworkRequester::AwsKmsKeyId(key).redacted()
            == SuccinctNetworkRequester::AwsKmsKeyId(other).redacted(),
{
}

} // verus!
