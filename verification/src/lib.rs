//! Verified decision logic of the Base batcher and prover services.

pub mod backend_laws;
pub mod block_laws;
pub mod builder;
pub mod channel;
pub mod channel_laws;
pub mod comparison;
pub mod content_laws;
pub mod cursor;
pub mod decision_laws;
pub mod divergence;
pub mod error;
pub mod function_laws;
pub mod ingest_laws;
pub mod json;
pub mod l2_queue;
pub mod metrics;
pub mod monitor;
pub mod monitor_laws;
pub mod normalized;
pub mod parity_laws;
pub mod parity_state;
pub mod report_laws;
pub mod rpc_url;
pub mod side_state;
pub mod source_rpc_proxy;
pub mod submission;
pub mod text;
pub mod upgrade_signal;
pub mod zk_host;
