use crate::primitives::{
    BlockHash, Header, Receipt, SealedHeader, TotalDifficulty, TransactionSignedNoHash,
};
use vstd::prelude::*;

verus! {

/// One decoded row of a segment. A segment stores rows of exactly one
/// kind; a masked read that asks a row for columns of another kind
/// decodes nothing.
#[derive(Clone, Copy, Debug, PartialEq, Eq)]
pub enum SegmentRow {
    /// A header-segment row: header, block hash and total difficulty
    /// columns, keyed by block number.
    Header { header: Header, hash: BlockHash, total_difficulty: TotalDifficulty },
    /// A transaction-segment row: the stored signed payload, without a
    /// cached hash column, keyed by transaction number.
    Transaction { transaction: TransactionSignedNoHash },
    /// A receipt-segment row, keyed by transaction number.
    Receipt { receipt: Receipt },
}

/// One entry of a segment's on-disk hash index. The index is a hint, not
/// a promise: an entry may point at an adjacent or stale row, which is why
/// every hash-keyed query re-checks the hash column it decodes.
#[derive(Clone, Copy, Debug, PartialEq, Eq)]
pub struct IndexEntry {
    pub hash: u64,
    pub row_key: u64,
}

/// An immutable, loaded segment: a contiguous run of rows whose first row
/// key is `start`, plus the hash index published with it.
#[derive(Clone, Debug, PartialEq, Eq)]
pub struct LoadedJar {
    pub start: u64,
    pub rows: Vec<SegmentRow>,
    pub index: Vec<IndexEntry>,
}

/// The row stored at key `k`, if `k` falls inside the published span.
pub open spec fn row_at(jar: LoadedJar, k: int) -> Option<SegmentRow> {
    if jar.start <= k && k - jar.start < jar.rows@.len() {
        Some(jar.rows@[k - jar.start])
    } else {
        None
    }
}

/// The header column at key `k`.
pub open spec fn header_at(jar: LoadedJar, k: int) -> Option<Header> {
    match row_at(jar, k) {
        Some(SegmentRow::Header { header, .. }) => Some(header),
        _ => None,
    }
}

/// The block-hash column at key `k`.
pub open spec fn hash_at(jar: LoadedJar, k: int) -> Option<BlockHash> {
    match row_at(jar, k) {
        Some(SegmentRow::Header { hash, .. }) => Some(hash),
        _ => None,
    }
}

/// The total-difficulty column at key `k`.
pub open spec fn total_difficulty_at(jar: LoadedJar, k: int) -> Option<TotalDifficulty> {
    match row_at(jar, k) {
        Some(SegmentRow::Header { total_difficulty, .. }) => Some(total_difficulty),
        _ => None,
    }
}

/// The header and block-hash columns of the row at key `k`, sealed into
/// one value. Both come from the same row, never from neighbours.
pub open spec fn sealed_at(jar: LoadedJar, k: int) -> Option<SealedHeader> {
    match row_at(jar, k) {
        Some(SegmentRow::Header { header, hash, .. }) => Some(SealedHeader { header, hash }),
        _ => None,
    }
}

/// The stored transaction at key `k`.
pub open spec fn transaction_at(jar: LoadedJar, k: int) -> Option<TransactionSignedNoHash> {
    match row_at(jar, k) {
        Some(SegmentRow::Transaction { transaction }) => Some(transaction),
        _ => None,
    }
}

/// The receipt at key `k`.
pub open spec fn receipt_at(jar: LoadedJar, k: int) -> Option<Receipt> {
    match row_at(jar, k) {
        Some(SegmentRow::Receipt { receipt }) => Some(receipt),
        _ => None,
    }
}

/// The row key the first matching index entry proposes for `h`, if any.
pub open spec fn index_find(entries: Seq<IndexEntry>, h: u64) -> Option<u64>
    decreases entries.len(),
{
    if entries.len() == 0 {
        None
    } else if entries[0].hash == h {
        Some(entries[0].row_key)
    } else {
        index_find(entries.drop_first(), h)
    }
}

/// The candidate row key the segment's index proposes for hash `h`.
pub open spec fn hash_candidate(jar: LoadedJar, h: u64) -> Option<u64> {
    index_find(jar.index@, h)
}

/// A key that positions a cursor: either a row key itself, or a content
/// hash the segment's index resolves into a candidate row key.
#[derive(Clone, Copy, Debug, PartialEq, Eq)]
pub enum LookupKey {
    Number(u64),
    Hash(u64),
}

/// The row key a lookup key resolves to: a numeric key stands for itself,
/// a hash goes through the index.
pub open spec fn resolve_key(jar: LoadedJar, key: LookupKey) -> Option<u64> {
    match key {
        LookupKey::Number(n) => Some(n),
        LookupKey::Hash(h) => hash_candidate(jar, h),
    }
}

/// The resolved row key together with the row stored there, when the key
/// resolves and the row is populated.
pub open spec fn fetch_at(jar: LoadedJar, key: LookupKey) -> Option<(u64, SegmentRow)> {
    match resolve_key(jar, key) {
        Some(k) => match row_at(jar, k as int) {
            Some(row) => Some((k, row)),
            None => None,
        },
        None => None,
    }
}

/// What a one-column header read yields.
pub open spec fn spec_get_header(jar: LoadedJar, key: LookupKey) -> Option<Header> {
    match fetch_at(jar, key) {
        Some((k, SegmentRow::Header { header, .. })) => Some(header),
        _ => None,
    }
}

/// What a two-column (header, hash) read yields.
pub open spec fn spec_get_header_with_hash(jar: LoadedJar, key: LookupKey) -> Option<
    (Header, BlockHash),
> {
    match fetch_at(jar, key) {
        Some((k, SegmentRow::Header { header, hash, .. })) => Some((header, hash)),
        _ => None,
    }
}

/// What a one-column total-difficulty read yields.
pub open spec fn spec_get_total_difficulty(jar: LoadedJar, key: LookupKey) -> Option<
    TotalDifficulty,
> {
    match fetch_at(jar, key) {
        Some((k, SegmentRow::Header { total_difficulty, .. })) => Some(total_difficulty),
        _ => None,
    }
}

/// What a two-column (total difficulty, hash) read yields.
pub open spec fn spec_get_total_difficulty_with_hash(jar: LoadedJar, key: LookupKey) -> Option<
    (TotalDifficulty, BlockHash),
> {
    match fetch_at(jar, key) {
        Some((k, SegmentRow::Header { total_difficulty, hash, .. })) => Some(
            (total_difficulty, hash),
        ),
        _ => None,
    }
}

/// What a one-column block-hash read yields.
pub open spec fn spec_get_block_hash(jar: LoadedJar, key: LookupKey) -> Option<BlockHash> {
    match fetch_at(jar, key) {
        Some((k, SegmentRow::Header { hash, .. })) => Some(hash),
        _ => None,
    }
}

/// What a one-column stored-transaction read yields.
pub open spec fn spec_get_transaction(jar: LoadedJar, key: LookupKey) -> Option<
    TransactionSignedNoHash,
> {
    match fetch_at(jar, key) {
        Some((k, SegmentRow::Transaction { transaction })) => Some(transaction),
        _ => None,
    }
}

/// What a one-column receipt read yields.
pub open spec fn spec_get_receipt(jar: LoadedJar, key: LookupKey) -> Option<Receipt> {
    match fetch_at(jar, key) {
        Some((k, SegmentRow::Receipt { receipt })) => Some(receipt),
        _ => None,
    }
}

/// Scanning one non-matching entry forward leaves the index answer as is.
proof fn lemma_index_find_step(entries: Seq<IndexEntry>, h: u64, i: int)
    requires
        0 <= i < entries.len(),
        entries[i].hash != h,
    ensures
        index_find(entries.skip(i), h) == index_find(entries.skip(i + 1), h),
{
    assert(entries.skip(i)[0] == entries[i]);
    assert(entries.skip(i).drop_first() =~= entries.skip(i + 1));
}

/// Linear scan of the index for the first entry carrying `h`.
fn find_in_index(index: &Vec<IndexEntry>, h: u64) -> (r: Option<u64>)
    ensures
        r == index_find(index@, h),
{
    proof {
        assert(index@.skip(0) =~= index@);
    }
    let mut i: usize = 0;
    while i < index.len()
        invariant
            i <= index@.len(),
            index_find(index@, h) == index_find(index@.skip(i as int), h),
        decreases index@.len() - i,
    {
        if index[i].hash == h {
            proof {
                assert(index@.skip(i as int)[0] == index@[i as int]);
            }
            return Some(index[i].row_key);
        }
        proof {
            lemma_index_find_step(index@, h, i as int);
        }
        i = i + 1;
    }
    proof {
        assert(index@.skip(index@.len() as int) =~= Seq::<IndexEntry>::empty());
    }
    None
}

/// A stateful reader over one loaded segment. It resolves lookup keys,
/// decodes masked columns, and remembers the row key of the last row it
/// decoded successfully, so a hash-keyed caller can learn which row
/// answered.
pub struct SnapshotCursor<'a> {
    jar: &'a LoadedJar,
    number: u64,
}

impl<'a> SnapshotCursor<'a> {
    /// The segment this cursor reads.
    pub closed spec fn spec_jar(self) -> LoadedJar {
        *self.jar
    }

    /// The row key of the last successful decode.
    pub closed spec fn spec_number(self) -> u64 {
        self.number
    }

    /// A fresh cursor positioned at the segment's first row key.
    pub fn new(jar: &'a LoadedJar) -> (r: Self)
        ensures
            r.spec_jar() == *jar,
            r.spec_number() == jar.start,
    {
        SnapshotCursor { jar, number: jar.start }
    }

    /// The row key of the last row this cursor decoded successfully.
    pub fn number(&self) -> (r: u64)
        ensures
            r == self.spec_number(),
    {
        self.number
    }

    /// Resolves a lookup key and reads the row stored there.
    fn fetch(&self, key: LookupKey) -> (r: Option<(u64, SegmentRow)>)
        ensures
            r == fetch_at(self.spec_jar(), key),
    {
        let resolved: Option<u64> = match key {
            LookupKey::Number(n) => Some(n),
            LookupKey::Hash(h) => find_in_index(&self.jar.index, h),
        };
        match resolved {
            Some(k) => {
                if k >= self.jar.start && k - self.jar.start < self.jar.rows.len() as u64 {
                    let off: usize = (k - self.jar.start) as usize;
                    Some((k, self.jar.rows[off]))
                } else {
                    None
                }
            },
            None => None,
        }
    }

    /// Decodes the header column at `key`.
    pub fn get_header(&mut self, key: LookupKey) -> (r: Option<Header>)
        ensures
            final(self).spec_jar() == old(self).spec_jar(),
            r == spec_get_header(old(self).spec_jar(), key),
            r is Some ==> Some(final(self).spec_number()) == resolve_key(
                old(self).spec_jar(),
                key,
            ),
            r is None ==> final(self).spec_number() == old(self).spec_number(),
    {
        match self.fetch(key) {
            Some((k, SegmentRow::Header { header, .. })) => {
                self.number = k;
                Some(header)
            },
            _ => None,
        }
    }

    /// Decodes the (header, hash) column pair at `key`, both from the
    /// same row.
    pub fn get_header_with_hash(&mut self, key: LookupKey) -> (r: Option<(Header, BlockHash)>)
        ensures
            final(self).spec_jar() == old(self).spec_jar(),
            r == spec_get_header_with_hash(old(self).spec_jar(), key),
            r is Some ==> Some(final(self).spec_number()) == resolve_key(
                old(self).spec_jar(),
                key,
            ),
            r is None ==> final(self).spec_number() == old(self).spec_number(),
    {
        match self.fetch(key) {
            Some((k, SegmentRow::Header { header, hash, .. })) => {
                self.number = k;
                Some((header, hash))
            },
            _ => None,
        }
    }

    /// Decodes the total-difficulty column at `key`.
    pub fn get_total_difficulty(&mut self, key: LookupKey) -> (r: Option<TotalDifficulty>)
        ensures
            final(self).spec_jar() == old(self).spec_jar(),
            r == spec_get_total_difficulty(old(self).spec_jar(), key),
            r is Some ==> Some(final(self).spec_number()) == resolve_key(
                old(self).spec_jar(),
                key,
            ),
            r is None ==> final(self).spec_number() == old(self).spec_number(),
    {
        match self.fetch(key) {
            Some((k, SegmentRow::Header { total_difficulty, .. })) => {
                self.number = k;
                Some(total_difficulty)
            },
            _ => None,
        }
    }

    /// Decodes the (total difficulty, hash) column pair at `key`, both
    /// from the same row.
    pub fn get_total_difficulty_with_hash(&mut self, key: LookupKey) -> (r: Option<
        (TotalDifficulty, BlockHash),
    >)
        ensures
            final(self).spec_jar() == old(self).spec_jar(),
            r == spec_get_total_difficulty_with_hash(old(self).spec_jar(), key),
            r is Some ==> Some(final(self).spec_number()) == resolve_key(
                old(self).spec_jar(),
                key,
            ),
            r is None ==> final(self).spec_number() == old(self).spec_number(),
    {
        match self.fetch(key) {
            Some((k, SegmentRow::Header { total_difficulty, hash, .. })) => {
                self.number = k;
                Some((total_difficulty, hash))
            },
            _ => None,
        }
    }

    /// Decodes the block-hash column at `key`.
    pub fn get_block_hash(&mut self, key: LookupKey) -> (r: Option<BlockHash>)
        ensures
            final(self).spec_jar() == old(self).spec_jar(),
            r == spec_get_block_hash(old(self).spec_jar(), key),
            r is Some ==> Some(final(self).spec_number()) == resolve_key(
                old(self).spec_jar(),
                key,
            ),
            r is None ==> final(self).spec_number() == old(self).spec_number(),
    {
        match self.fetch(key) {
            Some((k, SegmentRow::Header { hash, .. })) => {
                self.number = k;
                Some(hash)
            },
            _ => None,
        }
    }

    /// Decodes the stored-transaction column at `key`.
    pub fn get_transaction(&mut self, key: LookupKey) -> (r: Option<TransactionSignedNoHash>)
        ensures
            final(self).spec_jar() == old(self).spec_jar(),
            r == spec_get_transaction(old(self).spec_jar(), key),
            r is Some ==> Some(final(self).spec_number()) == resolve_key(
                old(self).spec_jar(),
                key,
            ),
            r is None ==> final(self).spec_number() == old(self).spec_number(),
    {
        match self.fetch(key) {
            Some((k, SegmentRow::Transaction { transaction })) => {
                self.number = k;
                Some(transaction)
            },
            _ => None,
        }
    }

    /// Decodes the receipt column at `key`.
    pub fn get_receipt(&mut self, key: LookupKey) -> (r: Option<Receipt>)
        ensures
            final(self).spec_jar() == old(self).spec_jar(),
            r == spec_get_receipt(old(self).spec_jar(), key),
            r is Some ==> Some(final(self).spec_number()) == resolve_key(
                old(self).spec_jar(),
                key,
            ),
            r is None ==> final(self).spec_number() == old(self).spec_number(),
    {
        match self.fetch(key) {
            Some((k, SegmentRow::Receipt { receipt })) => {
                self.number = k;
                Some(receipt)
            },
            _ => None,
        }
    }
}

} // verus!
