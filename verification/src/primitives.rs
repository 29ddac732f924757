use vstd::prelude::*;

verus! {

/// Row key of the header segment.
pub type BlockNumber = u64;

/// Row key of the transaction and receipt segments.
pub type TxNumber = u64;

/// Content hash of a block header.
pub type BlockHash = u64;

/// Content hash of a signed transaction.
pub type TxHash = u64;

/// Recovered signer of a transaction.
pub type Address = u64;

/// Accumulated total difficulty stored beside each header.
pub type TotalDifficulty = u128;

/// Mixing constant for the transaction digest.
pub const TX_HASH_SALT: u64 = 0x9e3779b97f4a7c15;

/// Mixing constant for signer derivation.
pub const SIGNER_SALT: u64 = 0x6a09e667f3bcc908;

/// A block header as one decoded column value.
#[derive(Clone, Copy, Debug, PartialEq, Eq)]
pub struct Header {
    pub number: BlockNumber,
    pub parent_hash: BlockHash,
    pub timestamp: u64,
}

/// A header bundled with its trusted, precomputed block hash. The hash is
/// read from the adjacent column, never recomputed on this read path.
#[derive(Clone, Copy, Debug, PartialEq, Eq)]
pub struct SealedHeader {
    pub header: Header,
    pub hash: BlockHash,
}

impl Header {
    /// Bundles this header with an already-known block hash.
    pub fn seal(self, hash: BlockHash) -> (r: SealedHeader)
        ensures
            r.header == self,
            r.hash == hash,
    {
        SealedHeader { header: self, hash }
    }
}

/// A transaction as stored in a segment row: the signed payload without a
/// cached hash column. A hash is materialized on demand from these fields.
#[derive(Clone, Copy, Debug, PartialEq, Eq)]
pub struct TransactionSignedNoHash {
    pub payload: u64,
    pub signature: u64,
}

/// A transaction bearing its materialized hash.
#[derive(Clone, Copy, Debug, PartialEq, Eq)]
pub struct TransactionSigned {
    pub transaction: TransactionSignedNoHash,
    pub hash: TxHash,
}

/// The digest of a stored transaction: a fixed mixing of the signed fields,
/// so equal records always materialize equal hashes.
pub open spec fn spec_tx_hash(t: TransactionSignedNoHash) -> TxHash {
    (t.payload ^ TX_HASH_SALT) ^ (t.signature << 1u64)
}

/// Whether signer recovery succeeds for a stored transaction: a zeroed
/// signature carries no recoverable signer.
pub open spec fn spec_recoverable(t: TransactionSignedNoHash) -> bool {
    t.signature != 0
}

/// The signer a recoverable transaction yields.
pub open spec fn spec_signer(t: TransactionSignedNoHash) -> Address {
    (t.signature ^ t.payload) ^ SIGNER_SALT
}

/// Recovery as a partial function: the signer when one is recoverable.
pub open spec fn spec_recover_signer(t: TransactionSignedNoHash) -> Option<Address> {
    if spec_recoverable(t) {
        Some(spec_signer(t))
    } else {
        None
    }
}

/// The signers of a batch, in batch order.
pub open spec fn spec_signers_of(txs: Seq<TransactionSignedNoHash>) -> Seq<Address> {
    txs.map_values(|t: TransactionSignedNoHash| spec_signer(t))
}

impl TransactionSignedNoHash {
    /// Materializes this record's hash by digesting the signed payload.
    pub fn hash(&self) -> (r: TxHash)
        ensures
            r == spec_tx_hash(*self),
    {
        (self.payload ^ TX_HASH_SALT) ^ (self.signature << 1u64)
    }

    /// Turns a stored record into a hash-bearing value, materializing the
    /// hash; call sites pay the digest cost explicitly.
    pub fn with_hash(self) -> (r: TransactionSigned)
        ensures
            r.transaction == self,
            r.hash == spec_tx_hash(self),
    {
        let h = self.hash();
        TransactionSigned { transaction: self, hash: h }
    }

    /// Recovers this record's signer, or `None` when the signature admits
    /// no recovery.
    pub fn recover_signer(&self) -> (r: Option<Address>)
        ensures
            r == spec_recover_signer(*self),
    {
        if self.signature != 0 {
            Some((self.signature ^ self.payload) ^ SIGNER_SALT)
        } else {
            None
        }
    }

    /// Recovers the signers of an ordered batch, all or nothing: the
    /// addresses in batch order, or `None` as soon as any member's
    /// signature admits no recovery. Partial batches are never returned.
    pub fn recover_signers(txs: &Vec<TransactionSignedNoHash>, count: usize) -> (r: Option<
        Vec<Address>,
    >)
        requires
            count == txs@.len(),
        ensures
            r is Some <==> (forall|i: int| 0 <= i < txs@.len() ==> spec_recoverable(txs@[i])),
            r matches Some(v) ==> v@ == spec_signers_of(txs@),
    {
        let mut out: Vec<Address> = Vec::new();
        let mut i: usize = 0;
        while i < count
            invariant
                count == txs@.len(),
                i <= count,
                forall|j: int| 0 <= j < i ==> spec_recoverable(txs@[j]),
                out@ == spec_signers_of(txs@.take(i as int)),
            decreases count - i,
        {
            match txs[i].recover_signer() {
                Some(a) => {
                    out.push(a);
                    proof {
                        assert(spec_signers_of(txs@.take(i as int + 1)) =~= spec_signers_of(
                            txs@.take(i as int),
                        ).push(spec_signer(txs@[i as int])));
                    }
                },
                None => {
                    return None;
                },
            }
            i = i + 1;
        }
        proof {
            assert(txs@.take(txs@.len() as int) =~= txs@);
        }
        Some(out)
    }
}

/// A block referred to either by content hash or by number.
#[derive(Clone, Copy, Debug, PartialEq, Eq)]
pub enum BlockHashOrNumber {
    Hash(BlockHash),
    Number(BlockNumber),
}

/// A receipt as one decoded column value.
#[derive(Clone, Copy, Debug, PartialEq, Eq)]
pub struct Receipt {
    pub success: bool,
    pub cumulative_gas_used: u64,
}

/// Live chain-head information; only the live store can answer it.
#[derive(Clone, Copy, Debug, PartialEq, Eq)]
pub struct ChainInfo {
    pub best_hash: BlockHash,
    pub best_number: BlockNumber,
}

/// Block placement of a transaction; needs a transaction-to-block index.
#[derive(Clone, Copy, Debug, PartialEq, Eq)]
pub struct TransactionMeta {
    pub tx_hash: TxHash,
    pub index: u64,
    pub block_hash: BlockHash,
    pub block_number: BlockNumber,
}

} // verus!
