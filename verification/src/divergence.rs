//! Records of the pairs that a comparison found to differ.

use crate::comparison::L2MismatchReason;
use vstd::prelude::*;

verus! {

/// Two batches at one position that differ.
#[derive(Clone, Copy, Debug, PartialEq, Eq, Structural)]
pub struct BatchDivergence {
    /// L1 block after which the batches were compared.
    pub l1_block: u64,
    /// Timestamp of the first L2 block of the canonical batch.
    pub canonical_start_timestamp: u64,
    /// Timestamp of the last L2 block of the canonical batch.
    pub canonical_end_timestamp: u64,
    /// L1 origin number of the first L2 block of the canonical batch.
    pub canonical_start_epoch: u64,
    /// L1 origin number of the last L2 block of the canonical batch.
    pub canonical_end_epoch: u64,
    /// Timestamp of the first L2 block of the shadow batch.
    pub shadow_start_timestamp: u64,
    /// Timestamp of the last L2 block of the shadow batch.
    pub shadow_end_timestamp: u64,
    /// L1 origin number of the first L2 block of the shadow batch.
    pub shadow_start_epoch: u64,
    /// L1 origin number of the last L2 block of the shadow batch.
    pub shadow_end_epoch: u64,
}

/// Two L2 blocks of one timestamp whose contents differ.
#[derive(Clone, Copy, Debug, PartialEq, Eq, Structural)]
pub struct L2Divergence {
    /// L1 block after which the blocks were compared.
    pub l1_block: u64,
    /// Timestamp of both blocks.
    pub l2_timestamp: u64,
    /// L1 origin number of the canonical block.
    pub canonical_epoch: u64,
    /// L1 origin number of the shadow block.
    pub shadow_epoch: u64,
    /// Number of transactions of the canonical block.
    pub canonical_tx_count: usize,
    /// Number of transactions of the shadow block.
    pub shadow_tx_count: usize,
    /// Why the contents differ.
    pub reason: L2MismatchReason,
}

/// A pair that differs.
#[derive(Clone, Copy, Debug, PartialEq, Eq, Structural)]
pub enum Divergence {
    /// Two batches.
    Batch(BatchDivergence),
    /// Two L2 blocks.
    L2Block(L2Divergence),
}

/// The divergences found so far, in the order they were found.
#[derive(Debug)]
pub struct DivergenceLog {
    /// Recorded divergences, oldest first.
    pub records: Vec<Divergence>,
}

impl View for DivergenceLog {
    type V = Seq<Divergence>;

    open spec fn view(&self) -> Seq<Divergence> {
        self.records@
    }
}

impl Default for DivergenceLog {
    /// No divergences.
    fn default() -> (log: Self)
        ensures
            log@ == Seq::<Divergence>::empty(),
    {
        DivergenceLog { records: Vec::new() }
    }
}

impl DivergenceLog {
    /// Records a divergence.
    pub fn record(&mut self, divergence: Divergence)
        ensures
            final(self)@ == old(self)@.push(divergence),
    {
        self.records.push(divergence);
    }

    /// Hands out the recorded divergences, in order, and forgets them.
    pub fn drain(&mut self) -> (records: Vec<Divergence>)
        ensures
            records@ == old(self)@,
            final(self)@ == Seq::<Divergence>::empty(),
    {
        let mut records: Vec<Divergence> = Vec::new();
        std::mem::swap(&mut records, &mut self.records);
        records
    }
}

} // verus!
