[package]
name = "base_batcher_prover"
version = "0.1.0"
edition = "2021"
publish = false

[dependencies]
alloy-eips = { version = "1", default-features = false, features = ["std"] }
alloy-primitives = { version = "1", default-features = false, features = ["std"] }
alloy-rpc-types-eth = { version = "1", default-features = false, features = ["std"] }
clap = { version = "4", features = ["derive", "env"] }
eyre = "0.6"
futures = { version = "0.3", default-features = false, features = ["std", "async-await"] }
jsonrpsee = { version = "0.26", default-features = false, features = ["server"] }
reqwest = { version = "0.12", default-features = false, features = ["json"] }
serde = { version = "1", features = ["derive"] }
serde_json = "1"
thiserror = "2"
tokio = { version = "1", features = ["macros", "rt-multi-thread", "sync", "time"] }
tokio-util = "0.7"
tracing = { version = "0.1", default-features = false, features = ["std"] }
url = "2"
uuid = { version = "1", features = ["v4"] }
