# base_batcher_prover

Decision logic of the Base batcher and prover services, verified with Verus.

- `channel`, `normalized`, `l2_queue`, `side_state`, `comparison`,
  `parity_state`: comparison of canonical and shadow batch submissions. Decoding
  of frames, channels and blobs is handed in as a `DerivationCodec`.
- `monitor`, `cursor`: the shadow parity monitor. It processes L1 blocks that
  the service fetched, and the cursor decides which block is next.
- `metrics`: metric updates, recorded in order for the service to emit.
- `submission`, `error`: reading two submissions from hexadecimal input and
  comparing them.
- `builder`, `zk_host`: construction of Succinct proving backends, and the
  settings of the ZK prover host worker.
- `source_rpc_proxy`, `json`, `rpc_url`: a source RPC proxy that strips
  `requestsHash` from blocks.
- `upgrade_signal`: validation of runtime upgrade signals.
- `divergence`: records of the pairs that differ, for the service to log.
- `parity_laws`, `channel_laws`, `monitor_laws`, `decision_laws`: properties that hold across functions. The
  other modules state theirs beside the functions they speak of.

`app/` holds the programs and services: command lines, network access, metrics
emission and logging.
