//! Normalized summaries of decoded batches and L2 blocks.
//!
//! Two batchers may split the same L2 blocks over different channels and
//! frames. A normalized summary drops that volatile metadata, so that equal
//! summaries mean equal derived batches.

use vstd::prelude::*;

verus! {

/// A 32-byte hash.
pub type B256 = [u8; 32];

/// A 20-byte prefix of a hash, as span batches carry it.
pub type HashCheck = [u8; 20];

/// A 20-byte account address.
pub type Address = [u8; 20];

/// Encoding of a batch.
#[derive(Clone, Copy, Debug, PartialEq, Eq, Structural)]
pub enum NormalizedBatchKind {
    /// A batch of one L2 block.
    Single,
    /// A batch that spans several L2 blocks.
    Span,
}

/// Stable summary of one decoded batch.
#[derive(Clone, Debug)]
pub struct NormalizedBatch {
    /// Encoding of the batch.
    pub kind: NormalizedBatchKind,
    /// Parent hash of a single batch.
    pub parent_hash: Option<B256>,
    /// L1 origin hash of a single batch.
    pub epoch_hash: Option<B256>,
    /// Parent hash prefix of a span batch.
    pub parent_check: Option<HashCheck>,
    /// L1 origin hash prefix of a span batch.
    pub l1_origin_check: Option<HashCheck>,
    /// Chain ID of a span batch.
    pub chain_id: Option<u64>,
    /// Origin-change bits of a span batch.
    pub origin_bits: Option<Vec<u8>>,
    /// Timestamp of the first L2 block.
    pub start_timestamp: u64,
    /// Timestamp of the last L2 block.
    pub end_timestamp: u64,
    /// L1 origin number of the first L2 block.
    pub start_epoch_num: u64,
    /// L1 origin number of the last L2 block.
    pub end_epoch_num: u64,
    /// Number of L2 blocks.
    pub block_count: u64,
    /// Number of transactions of each L2 block.
    pub tx_counts: Vec<u64>,
    /// Hashes of all transactions, in order.
    pub tx_hashes: Vec<B256>,
}

/// What a normalized batch says, with its lists as sequences.
#[verifier::ext_equal]
pub struct NormalizedBatchView {
    pub kind: NormalizedBatchKind,
    pub parent_hash: Option<B256>,
    pub epoch_hash: Option<B256>,
    pub parent_check: Option<HashCheck>,
    pub l1_origin_check: Option<HashCheck>,
    pub chain_id: Option<u64>,
    pub origin_bits: Option<Seq<u8>>,
    pub start_timestamp: u64,
    pub end_timestamp: u64,
    pub start_epoch_num: u64,
    pub end_epoch_num: u64,
    pub block_count: u64,
    pub tx_counts: Seq<u64>,
    pub tx_hashes: Seq<B256>,
}

/// The bytes of an optional list.
pub open spec fn optional_bytes(bytes: Option<Vec<u8>>) -> Option<Seq<u8>> {
    match bytes {
        Some(list) => Some(list@),
        None => None,
    }
}

impl View for NormalizedBatch {
    type V = NormalizedBatchView;

    open spec fn view(&self) -> NormalizedBatchView {
        NormalizedBatchView {
            kind: self.kind,
            parent_hash: self.parent_hash,
            epoch_hash: self.epoch_hash,
            parent_check: self.parent_check,
            l1_origin_check: self.l1_origin_check,
            chain_id: self.chain_id,
            origin_bits: optional_bytes(self.origin_bits),
            start_timestamp: self.start_timestamp,
            end_timestamp: self.end_timestamp,
            start_epoch_num: self.start_epoch_num,
            end_epoch_num: self.end_epoch_num,
            block_count: self.block_count,
            tx_counts: self.tx_counts@,
            tx_hashes: self.tx_hashes@,
        }
    }
}

/// Stable summary of one decoded L2 block.
#[derive(Clone, Debug)]
pub struct NormalizedL2Block {
    /// Timestamp of the block.
    pub timestamp: u64,
    /// L1 origin number of the block.
    pub epoch_num: u64,
    /// Hashes of the transactions of the block, in order.
    pub tx_hashes: Vec<B256>,
}

/// Result of comparing two lists of normalized batches.
#[derive(Clone, Copy, Debug, PartialEq, Eq, Structural)]
pub struct ParityComparison {
    /// Whether both lists say the same.
    pub is_match: bool,
}

/// Compares lists of normalized batches.
pub struct ParityComparator;

/// What each batch of a list says.
pub open spec fn batch_views(batches: Seq<NormalizedBatch>) -> Seq<NormalizedBatchView> {
    batches.map_values(|batch: NormalizedBatch| batch@)
}

/// Compares two hashes byte by byte.
pub fn same_hash(left: &B256, right: &B256) -> (same: bool)
    ensures
        same == (*left == *right),
{
    let mut i: usize = 0;
    while i < 32
        invariant
            i <= 32,
            forall|k: int| 0 <= k < i ==> left[k] == right[k],
        decreases 32 - i,
    {
        if left[i] != right[i] {
            return false;
        }
        i = i + 1;
    }
    assert(*left =~= *right);
    true
}

/// Compares two hash prefixes byte by byte.
pub fn same_hash_check(left: &HashCheck, right: &HashCheck) -> (same: bool)
    ensures
        same == (*left == *right),
{
    let mut i: usize = 0;
    while i < 20
        invariant
            i <= 20,
            forall|k: int| 0 <= k < i ==> left[k] == right[k],
        decreases 20 - i,
    {
        if left[i] != right[i] {
            return false;
        }
        i = i + 1;
    }
    assert(*left =~= *right);
    true
}

fn same_optional_hash(left: &Option<B256>, right: &Option<B256>) -> (same: bool)
    ensures
        same == (*left == *right),
{
    match (left, right) {
        (Some(a), Some(b)) => same_hash(a, b),
        (None, None) => true,
        _ => false,
    }
}

fn same_optional_hash_check(left: &Option<HashCheck>, right: &Option<HashCheck>) -> (same: bool)
    ensures
        same == (*left == *right),
{
    match (left, right) {
        (Some(a), Some(b)) => same_hash_check(a, b),
        (None, None) => true,
        _ => false,
    }
}

fn same_hashes(left: &Vec<B256>, right: &Vec<B256>) -> (same: bool)
    ensures
        same == (left@ == right@),
{
    if left.len() != right.len() {
        return false;
    }
    let mut i: usize = 0;
    while i < left.len()
        invariant
            i <= left.len(),
            left.len() == right.len(),
            forall|k: int| 0 <= k < i ==> left[k] == right[k],
        decreases left.len() - i,
    {
        if !same_hash(&left[i], &right[i]) {
            return false;
        }
        i = i + 1;
    }
    assert(left@ =~= right@);
    true
}

fn same_numbers(left: &Vec<u64>, right: &Vec<u64>) -> (same: bool)
    ensures
        same == (left@ == right@),
{
    if left.len() != right.len() {
        return false;
    }
    let mut i: usize = 0;
    while i < left.len()
        invariant
            i <= left.len(),
            left.len() == right.len(),
            forall|k: int| 0 <= k < i ==> left[k] == right[k],
        decreases left.len() - i,
    {
        if left[i] != right[i] {
            return false;
        }
        i = i + 1;
    }
    assert(left@ =~= right@);
    true
}

fn same_optional_bytes(left: &Option<Vec<u8>>, right: &Option<Vec<u8>>) -> (same: bool)
    ensures
        same == (optional_bytes(*left) == optional_bytes(*right)),
{
    match (left, right) {
        (Some(a), Some(b)) => {
            if a.len() != b.len() {
                return false;
            }
            let mut i: usize = 0;
            while i < a.len()
                invariant
                    i <= a.len(),
                    a.len() == b.len(),
                    optional_bytes(*left) == Some(a@),
                    optional_bytes(*right) == Some(b@),
                    forall|k: int| 0 <= k < i ==> a[k] == b[k],
                decreases a.len() - i,
            {
                if a[i] != b[i] {
                    return false;
                }
                i = i + 1;
            }
            assert(a@ =~= b@);
            true
        },
        (None, None) => true,
        _ => false,
    }
}

impl NormalizedBatch {
    /// Whether two batches say the same.
    pub fn matches(&self, other: &NormalizedBatch) -> (same: bool)
        ensures
            same == (self@ == other@),
    {
        self.kind == other.kind && same_optional_hash(&self.parent_hash, &other.parent_hash)
            && same_optional_hash(&self.epoch_hash, &other.epoch_hash) && same_optional_hash_check(
            &self.parent_check,
            &other.parent_check,
        ) && same_optional_hash_check(&self.l1_origin_check, &other.l1_origin_check)
            && self.chain_id == other.chain_id && same_optional_bytes(
            &self.origin_bits,
            &other.origin_bits,
        ) && self.start_timestamp == other.start_timestamp && self.end_timestamp
            == other.end_timestamp && self.start_epoch_num == other.start_epoch_num
            && self.end_epoch_num == other.end_epoch_num && self.block_count == other.block_count
            && same_numbers(&self.tx_counts, &other.tx_counts) && same_hashes(
            &self.tx_hashes,
            &other.tx_hashes,
        )
    }
}

impl ParityComparator {
    /// Compares two lists of normalized batches position by position.
    pub fn compare(left: &[NormalizedBatch], right: &[NormalizedBatch]) -> (comparison:
        ParityComparison)
        ensures
            comparison.is_match == (batch_views(left@) == batch_views(right@)),
    {
        if left.len() != right.len() {
            proof {
                assert(batch_views(left@).len() != batch_views(right@).len());
            }
            return ParityComparison { is_match: false };
        }
        let mut i: usize = 0;
        while i < left.len()
            invariant
                i <= left.len(),
                left.len() == right.len(),
                forall|k: int| 0 <= k < i ==> left[k]@ == right[k]@,
            decreases left.len() - i,
        {
            if !left[i].matches(&right[i]) {
                proof {
                    assert(batch_views(left@)[i as int] != batch_views(right@)[i as int]);
                }
                return ParityComparison { is_match: false };
            }
            i = i + 1;
        }
        assert(batch_views(left@) =~= batch_views(right@));
        ParityComparison { is_match: true }
    }
}

impl NormalizedL2Block {
    /// Whether two blocks hold the same content: the same L1 origin number and
    /// the same transactions in the same order.
    pub open spec fn same_content(self, other: NormalizedL2Block) -> bool {
        &&& self.epoch_num == other.epoch_num
        &&& self.tx_hashes@ == other.tx_hashes@
    }

    /// Whether two blocks hold the same content.
    pub fn content_matches(&self, other: &NormalizedL2Block) -> (same: bool)
        ensures
            same == self.same_content(*other),
            same <==> (self.epoch_num == other.epoch_num && self.tx_hashes@.len()
                == other.tx_hashes@.len() && forall|i: int|
                0 <= i < self.tx_hashes@.len() ==> #[trigger] self.tx_hashes@[i]
                    == other.tx_hashes@[i]),
    {
        proof {
            if self.tx_hashes@.len() == other.tx_hashes@.len() && forall|i: int|
                0 <= i < self.tx_hashes@.len() ==> #[trigger] self.tx_hashes@[i]
                    == other.tx_hashes@[i] {
                assert(self.tx_hashes@ =~= other.tx_hashes@);
            }
        }
        self.epoch_num == other.epoch_num && same_hashes(&self.tx_hashes, &other.tx_hashes)
    }

    /// Number of transactions in the block.
    pub fn tx_count(&self) -> (count: usize)
        ensures
            count == self.tx_hashes@.len(),
    {
        self.tx_hashes.len()
    }
}

} // verus!
