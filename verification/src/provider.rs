use crate::collect::{
    collect_present, lemma_collect_present_absent_prefix, lemma_collect_present_absent_suffix,
    lemma_collect_present_all_present, lemma_collect_present_len,
    lemma_collect_present_membership, lemma_collect_present_snoc,
};
use crate::error::{ProviderError, ProviderResult};
use crate::jar::{
    fetch_at, hash_at, header_at, receipt_at, row_at, sealed_at, spec_get_header_with_hash,
    spec_get_total_difficulty_with_hash, total_difficulty_at, transaction_at, LoadedJar,
    LookupKey, SegmentRow, SnapshotCursor,
};
use crate::primitives::{
    spec_recoverable, spec_recover_signer, spec_signers_of, spec_tx_hash, Address, BlockHash,
    BlockHashOrNumber, BlockNumber, ChainInfo, Header, Receipt, SealedHeader, TotalDifficulty,
    TransactionMeta, TransactionSigned, TransactionSignedNoHash, TxHash, TxNumber,
};
use crate::ranges::{end_key_of, start_key_of, to_range, KeyBound};
use vstd::prelude::*;

verus! {

/// A provider over one loaded segment, optionally chained to an auxiliary
/// provider over a segment of another kind. It presents the same query
/// surface as the live mutable store; whatever a single immutable segment
/// cannot answer fails with [`ProviderError::UnsupportedProvider`].
#[derive(Debug)]
pub struct SnapshotJarProvider {
    /// Main segment.
    pub jar: LoadedJar,
    /// Another kind of segment to help query data from the main one.
    pub auxiliar_jar: Option<Box<SnapshotJarProvider>>,
}

/// The auxiliary provider attached to `p`, if any.
pub open spec fn aux_of(p: SnapshotJarProvider) -> Option<SnapshotJarProvider> {
    match p.auxiliar_jar {
        Some(b) => Some(*b),
        None => None,
    }
}

/// What a hash-keyed header query yields: the header decoded at the index
/// candidate, kept only when the hash decoded beside it equals the query.
pub open spec fn header_by_hash_of(jar: LoadedJar, h: BlockHash) -> Option<Header> {
    match spec_get_header_with_hash(jar, LookupKey::Hash(h)) {
        Some((header, hash)) => if hash == h {
            Some(header)
        } else {
            None
        },
        None => None,
    }
}

/// What a hash-keyed total-difficulty query yields, hash-validated the
/// same way.
pub open spec fn td_by_hash_of(jar: LoadedJar, h: BlockHash) -> Option<TotalDifficulty> {
    match spec_get_total_difficulty_with_hash(jar, LookupKey::Hash(h)) {
        Some((td, hash)) => if hash == h {
            Some(td)
        } else {
            None
        },
        None => None,
    }
}

/// What a hash-keyed block-number query yields: the row key at which the
/// hash column decodes to the query hash itself.
pub open spec fn block_number_of(jar: LoadedJar, h: BlockHash) -> Option<BlockNumber> {
    match fetch_at(jar, LookupKey::Hash(h)) {
        Some((k, SegmentRow::Header { hash, .. })) => if hash == h {
            Some(k)
        } else {
            None
        },
        _ => None,
    }
}

/// What a hash-keyed transaction-number query yields: the row key whose
/// stored record materializes exactly the query hash.
pub open spec fn transaction_id_of(jar: LoadedJar, h: TxHash) -> Option<TxNumber> {
    match fetch_at(jar, LookupKey::Hash(h)) {
        Some((k, SegmentRow::Transaction { transaction })) => if spec_tx_hash(transaction) == h {
            Some(k)
        } else {
            None
        },
        _ => None,
    }
}

/// What a hash-keyed transaction query yields: the validated record with
/// its hash materialized.
pub open spec fn transaction_by_hash_of(jar: LoadedJar, h: TxHash) -> Option<TransactionSigned> {
    match transaction_id_of(jar, h) {
        Some(k) => match transaction_at(jar, k as int) {
            Some(t) => Some(TransactionSigned { transaction: t, hash: spec_tx_hash(t) }),
            None => None,
        },
        None => None,
    }
}

/// The header column as a function of the row key.
pub open spec fn header_fn(jar: LoadedJar) -> spec_fn(int) -> Option<Header> {
    |k: int| header_at(jar, k)
}

/// The sealed (header, hash) pair as a function of the row key.
pub open spec fn sealed_fn(jar: LoadedJar) -> spec_fn(int) -> Option<SealedHeader> {
    |k: int| sealed_at(jar, k)
}

/// The block-hash column as a function of the row key.
pub open spec fn hash_fn(jar: LoadedJar) -> spec_fn(int) -> Option<BlockHash> {
    |k: int| hash_at(jar, k)
}

/// The stored-transaction column as a function of the row key.
pub open spec fn transaction_fn(jar: LoadedJar) -> spec_fn(int) -> Option<
    TransactionSignedNoHash,
> {
    |k: int| transaction_at(jar, k)
}

/// The headers present over the key span `[a, b)`, in key order.
pub open spec fn headers_in(jar: LoadedJar, a: int, b: int) -> Seq<Header> {
    collect_present(header_fn(jar), a, b)
}

/// The sealed headers present over the key span `[a, b)`, in key order.
pub open spec fn sealed_headers_in(jar: LoadedJar, a: int, b: int) -> Seq<SealedHeader> {
    collect_present(sealed_fn(jar), a, b)
}

/// The block hashes present over the key span `[a, b)`, in key order.
pub open spec fn hashes_in(jar: LoadedJar, a: int, b: int) -> Seq<BlockHash> {
    collect_present(hash_fn(jar), a, b)
}

/// The stored transactions present over the key span `[a, b)`, in key
/// order.
pub open spec fn transactions_in(jar: LoadedJar, a: int, b: int) -> Seq<TransactionSignedNoHash> {
    collect_present(transaction_fn(jar), a, b)
}

/// A segment never changes after publication, so queries are idempotent:
/// any two results of `header_by_number` for the same provider and block
/// number — each pinned by that function's contract — are equal.
pub proof fn lemma_header_by_number_repeatable(
    p: SnapshotJarProvider,
    num: BlockNumber,
    r1: ProviderResult<Option<Header>>,
    r2: ProviderResult<Option<Header>>,
)
    requires
        r1 == Ok::<Option<Header>, ProviderError>(header_at(p.jar, num as int)),
        r2 == Ok::<Option<Header>, ProviderError>(header_at(p.jar, num as int)),
    ensures
        r1 == r2,
{
}

/// A block hash no header row carries is never answered: whatever stale
/// or adjacent candidate the index proposes, the hash-equality check
/// turns every hash-keyed header query into "not found" — never a wrong
/// row.
pub proof fn lemma_unknown_hash_not_found(jar: LoadedJar, h: BlockHash)
    requires
        forall|k: int| #[trigger] hash_at(jar, k) != Some(h),
    ensures
        header_by_hash_of(jar, h) is None,
        td_by_hash_of(jar, h) is None,
        block_number_of(jar, h) is None,
{
    match fetch_at(jar, LookupKey::Hash(h)) {
        Some((k, row)) => {
            assert(row_at(jar, k as int) == Some(row));
            match row {
                SegmentRow::Header { hash, .. } => {
                    assert(hash_at(jar, k as int) == Some(hash));
                    assert(hash != h);
                },
                _ => {},
            }
        },
        None => {},
    }
}

/// The transaction twin: a hash no stored record materializes is never
/// answered by `transaction_id` or `transaction_by_hash`.
pub proof fn lemma_unknown_tx_hash_not_found(jar: LoadedJar, h: TxHash)
    requires
        forall|k: int| (#[trigger] transaction_at(jar, k)) matches Some(t) ==> spec_tx_hash(t)
            != h,
    ensures
        transaction_id_of(jar, h) is None,
        transaction_by_hash_of(jar, h) is None,
{
    match fetch_at(jar, LookupKey::Hash(h)) {
        Some((k, row)) => {
            match row {
                SegmentRow::Transaction { transaction } => {
                    assert(transaction_at(jar, k as int) == Some(transaction));
                    assert(spec_tx_hash(transaction) != h);
                },
                _ => {},
            }
        },
        None => {},
    }
}

/// A header range query is sound: it yields at most one header per key of
/// the span, and every header it yields is exactly what
/// `header_by_number` returns at some key of the span.
pub proof fn lemma_headers_range_sound(jar: LoadedJar, a: int, b: int)
    requires
        a <= b,
    ensures
        headers_in(jar, a, b).len() <= b - a,
        forall|i: int|
            0 <= i < headers_in(jar, a, b).len() ==> (exists|k: int|
                a <= k < b && #[trigger] header_at(jar, k) == Some(
                    #[trigger] headers_in(jar, a, b)[i],
                )),
{
    lemma_collect_present_len(header_fn(jar), a, b);
    assert forall|i: int| 0 <= i < headers_in(jar, a, b).len() implies (exists|k: int|
        a <= k < b && #[trigger] header_at(jar, k) == Some(
            #[trigger] headers_in(jar, a, b)[i],
        )) by {
        lemma_collect_present_membership(header_fn(jar), a, b, i);
        let k = choose|k: int|
            a <= k < b && #[trigger] header_fn(jar)(k) == Some(
                collect_present(header_fn(jar), a, b)[i],
            );
        assert(a <= k < b && header_at(jar, k) == Some(headers_in(jar, a, b)[i]));
    };
}

/// A sealed pair is the header and hash columns of one and the same row:
/// whenever `sealed_at` yields a pair, the row's own columns agree with
/// both of its parts.
pub proof fn lemma_sealed_at_columns(jar: LoadedJar, k: int)
    ensures
        sealed_at(jar, k) matches Some(p) ==> header_at(jar, k) == Some(p.header) && hash_at(
            jar,
            k,
        ) == Some(p.hash),
{
}

/// Every sealed pair a range query yields is `sealed_at` of some key of
/// the span — by [`lemma_sealed_at_columns`], a header coupled with the
/// hash stored in its own row, never with another row's hash.
pub proof fn lemma_sealed_headers_consistent(jar: LoadedJar, a: int, b: int)
    ensures
        forall|i: int|
            0 <= i < sealed_headers_in(jar, a, b).len() ==> (exists|k: int|
                a <= k < b && #[trigger] sealed_at(jar, k) == Some(
                    #[trigger] sealed_headers_in(jar, a, b)[i],
                )),
{
    assert forall|i: int| 0 <= i < sealed_headers_in(jar, a, b).len() implies (exists|k: int|
        a <= k < b && #[trigger] sealed_at(jar, k) == Some(
            #[trigger] sealed_headers_in(jar, a, b)[i],
        )) by {
        lemma_collect_present_membership(sealed_fn(jar), a, b, i);
        let k = choose|k: int|
            a <= k < b && #[trigger] sealed_fn(jar)(k) == Some(
                collect_present(sealed_fn(jar), a, b)[i],
            );
        assert(a <= k < b && sealed_at(jar, k) == Some(sealed_headers_in(jar, a, b)[i]));
    };
}

/// Over a fully populated, fully recoverable span, the batch sender query
/// is exact: one transaction and one signer per key — so `senders_by_tx_range`
/// returns exactly the span's length of addresses in row-key order, and
/// by its contract fails as a whole otherwise, never partially.
pub proof fn lemma_senders_all_or_nothing(jar: LoadedJar, a: int, b: int)
    requires
        a <= b,
        forall|k: int| a <= k < b ==> #[trigger] transaction_at(jar, k) is Some,
        forall|k: int|
            a <= k < b ==> ((#[trigger] transaction_at(jar, k)) matches Some(t)
                ==> spec_recoverable(t)),
    ensures
        transactions_in(jar, a, b).len() == b - a,
        spec_signers_of(transactions_in(jar, a, b)).len() == b - a,
        forall|i: int|
            0 <= i < b - a ==> spec_recoverable(#[trigger] transactions_in(jar, a, b)[i]),
{
    assert forall|k: int| a <= k < b implies #[trigger] transaction_fn(jar)(k) is Some by {
        assert(transaction_at(jar, k) is Some);
    };
    lemma_collect_present_all_present(transaction_fn(jar), a, b);
    assert forall|i: int| 0 <= i < b - a implies spec_recoverable(
        #[trigger] transactions_in(jar, a, b)[i],
    ) by {
        lemma_collect_present_membership(transaction_fn(jar), a, b, i);
        let k = choose|k: int|
            a <= k < b && #[trigger] transaction_fn(jar)(k) == Some(
                collect_present(transaction_fn(jar), a, b)[i],
            );
        assert(transaction_at(jar, k) == Some(transactions_in(jar, a, b)[i]));
    };
    assert(spec_signers_of(transactions_in(jar, a, b)).len() == transactions_in(
        jar,
        a,
        b,
    ).len());
}

impl From<LoadedJar> for SnapshotJarProvider {
    /// A provider over one loaded segment, with no auxiliary attached.
    fn from(value: LoadedJar) -> (r: Self) {
        SnapshotJarProvider { jar: value, auxiliar_jar: None }
    }
}

impl vstd::std_specs::convert::FromSpecImpl<LoadedJar> for SnapshotJarProvider {
    open spec fn obeys_from_spec() -> bool {
        true
    }

    open spec fn from_spec(value: LoadedJar) -> Self {
        SnapshotJarProvider { jar: value, auxiliar_jar: None }
    }
}

impl SnapshotJarProvider {
    /// Provides a cursor for more granular data access.
    pub fn cursor<'a>(&'a self) -> (c: SnapshotCursor<'a>)
        ensures
            c.spec_jar() == self.jar,
            c.spec_number() == self.jar.start,
    {
        SnapshotCursor::new(&self.jar)
    }

    /// Adds a new auxiliary segment to help query data from the main one.
    pub fn with_auxiliar(self, auxiliar_jar: SnapshotJarProvider) -> (r: Self)
        ensures
            r.jar == self.jar,
            aux_of(r) == Some(auxiliar_jar),
    {
        SnapshotJarProvider { jar: self.jar, auxiliar_jar: Some(Box::new(auxiliar_jar)) }
    }

    /// The header whose block hash is `block_hash`: the index candidate
    /// row is decoded as a (header, hash) pair and kept only when the
    /// decoded hash equals the query, so a stale index entry yields
    /// `None`, never another row's header.
    pub fn header(&self, block_hash: &BlockHash) -> (r: ProviderResult<Option<Header>>)
        ensures
            r == Ok::<Option<Header>, ProviderError>(header_by_hash_of(self.jar, *block_hash)),
    {
        let mut cursor = self.cursor();
        match cursor.get_header_with_hash(LookupKey::Hash(*block_hash)) {
            Some((header, hash)) => if hash == *block_hash {
                Ok(Some(header))
            } else {
                Ok(None)
            },
            None => Ok(None),
        }
    }

    /// The header stored at block number `num`; the key is the row key
    /// itself, so no validation is needed.
    pub fn header_by_number(&self, num: BlockNumber) -> (r: ProviderResult<Option<Header>>)
        ensures
            r == Ok::<Option<Header>, ProviderError>(header_at(self.jar, num as int)),
    {
        let mut cursor = self.cursor();
        Ok(cursor.get_header(LookupKey::Number(num)))
    }

    /// The total difficulty of the block whose hash is `block_hash`,
    /// hash-validated like [`Self::header`].
    pub fn header_td(&self, block_hash: &BlockHash) -> (r: ProviderResult<
        Option<TotalDifficulty>,
    >)
        ensures
            r == Ok::<Option<TotalDifficulty>, ProviderError>(
                td_by_hash_of(self.jar, *block_hash),
            ),
    {
        let mut cursor = self.cursor();
        match cursor.get_total_difficulty_with_hash(LookupKey::Hash(*block_hash)) {
            Some((td, hash)) => if hash == *block_hash {
                Ok(Some(td))
            } else {
                Ok(None)
            },
            None => Ok(None),
        }
    }

    /// The headers present over the normalized range, in row-key order.
    /// Absent rows are silently skipped, so the result can be shorter
    /// than the requested span. Iteration is bounded by the segment's
    /// published span, never by the range's possibly unbounded end.
    #[verifier::loop_isolation(false)]
    pub fn headers_range(&self, start: KeyBound, end: KeyBound) -> (r: ProviderResult<Vec<Header>>)
        requires
            start matches KeyBound::Excluded(v) ==> v < u64::MAX,
            end matches KeyBound::Included(v) ==> v < u64::MAX,
        ensures
            r matches Ok(v) && v@ == headers_in(self.jar, start_key_of(start), end_key_of(end)),
    {
        let range = to_range(start, end);
        let a: u64 = range.start;
        let b: u64 = range.end;
        let lo: u64 = if a > self.jar.start {
            a
        } else {
            self.jar.start
        };
        let len64: u64 = self.jar.rows.len() as u64;
        let off: u64 = lo - self.jar.start;
        let avail: u64 = if off < len64 {
            len64 - off
        } else {
            0
        };
        let span: u64 = if b > lo {
            b - lo
        } else {
            0
        };
        let count: u64 = if span < avail {
            span
        } else {
            avail
        };
        let ghost f = header_fn(self.jar);
        proof {
            assert forall|k: int| a <= k < lo implies #[trigger] f(k) is None by {
                assert(row_at(self.jar, k) is None);
            };
            lemma_collect_present_absent_prefix(f, a as int, lo as int, lo as int);
            assert(collect_present(f, lo as int, lo as int) =~= Seq::<Header>::empty());
        }
        let mut cursor = self.cursor();
        let mut out: Vec<Header> = Vec::new();
        let mut j: u64 = 0;
        while j < count
            invariant
                j <= count,
                cursor.spec_jar() == self.jar,
                out@ == collect_present(f, a as int, lo as int + j as int),
            decreases count - j,
        {
            let k: u64 = lo + j;
            let got = cursor.get_header(LookupKey::Number(k));
            proof {
                lemma_collect_present_snoc(f, a as int, lo as int + j as int + 1);
                assert(f(lo as int + j as int) == header_at(self.jar, k as int));
            }
            match got {
                Some(h) => out.push(h),
                None => {},
            }
            j = j + 1;
        }
        proof {
            let hi = lo as int + count as int;
            if hi <= b as int {
                assert forall|k: int| hi <= k < b as int implies #[trigger] f(k) is None by {
                    assert(row_at(self.jar, k) is None);
                };
                lemma_collect_present_absent_suffix(f, a as int, hi, b as int);
            } else {
                if a < b {
                    assert forall|k: int| a <= k < b as int implies #[trigger] f(k) is None by {
                        assert(row_at(self.jar, k) is None);
                    };
                    lemma_collect_present_absent_suffix(f, a as int, a as int, b as int);
                    assert(collect_present(f, a as int, a as int) =~= Seq::<Header>::empty());
                } else {
                    assert(collect_present(f, a as int, b as int) =~= Seq::<Header>::empty());
                }
            }
        }
        Ok(out)
    }

    /// The sealed headers present over the normalized range: one
    /// (header, hash) pair per populated row, each pair decoded from a
    /// single row, in row-key order; absent rows are skipped.
    #[verifier::loop_isolation(false)]
    pub fn sealed_headers_range(&self, start: KeyBound, end: KeyBound) -> (r: ProviderResult<
        Vec<SealedHeader>,
    >)
        requires
            start matches KeyBound::Excluded(v) ==> v < u64::MAX,
            end matches KeyBound::Included(v) ==> v < u64::MAX,
        ensures
            r matches Ok(v) && v@ == sealed_headers_in(
                self.jar,
                start_key_of(start),
                end_key_of(end),
            ),
    {
        let range = to_range(start, end);
        let a: u64 = range.start;
        let b: u64 = range.end;
        let lo: u64 = if a > self.jar.start {
            a
        } else {
            self.jar.start
        };
        let len64: u64 = self.jar.rows.len() as u64;
        let off: u64 = lo - self.jar.start;
        let avail: u64 = if off < len64 {
            len64 - off
        } else {
            0
        };
        let span: u64 = if b > lo {
            b - lo
        } else {
            0
        };
        let count: u64 = if span < avail {
            span
        } else {
            avail
        };
        let ghost f = sealed_fn(self.jar);
        proof {
            assert forall|k: int| a <= k < lo implies #[trigger] f(k) is None by {
                assert(row_at(self.jar, k) is None);
            };
            lemma_collect_present_absent_prefix(f, a as int, lo as int, lo as int);
            assert(collect_present(f, lo as int, lo as int) =~= Seq::<SealedHeader>::empty());
        }
        let mut cursor = self.cursor();
        let mut out: Vec<SealedHeader> = Vec::new();
        let mut j: u64 = 0;
        while j < count
            invariant
                j <= count,
                cursor.spec_jar() == self.jar,
                out@ == collect_present(f, a as int, lo as int + j as int),
            decreases count - j,
        {
            let k: u64 = lo + j;
            let got = cursor.get_header_with_hash(LookupKey::Number(k));
            proof {
                lemma_collect_present_snoc(f, a as int, lo as int + j as int + 1);
                assert(f(lo as int + j as int) == sealed_at(self.jar, k as int));
            }
            match got {
                Some((header, hash)) => out.push(header.seal(hash)),
                None => {},
            }
            j = j + 1;
        }
        proof {
            let hi = lo as int + count as int;
            if hi <= b as int {
                assert forall|k: int| hi <= k < b as int implies #[trigger] f(k) is None by {
                    assert(row_at(self.jar, k) is None);
                };
                lemma_collect_present_absent_suffix(f, a as int, hi, b as int);
            } else {
                if a < b {
                    assert forall|k: int| a <= k < b as int implies #[trigger] f(k) is None by {
                        assert(row_at(self.jar, k) is None);
                    };
                    lemma_collect_present_absent_suffix(f, a as int, a as int, b as int);
                    assert(collect_present(f, a as int, a as int) =~= Seq::<
                        SealedHeader,
                    >::empty());
                } else {
                    assert(collect_present(f, a as int, b as int) =~= Seq::<
                        SealedHeader,
                    >::empty());
                }
            }
        }
        Ok(out)
    }

    /// The sealed (header, hash) pair stored at block number `number`.
    pub fn sealed_header(&self, number: BlockNumber) -> (r: ProviderResult<Option<SealedHeader>>)
        ensures
            r == Ok::<Option<SealedHeader>, ProviderError>(sealed_at(self.jar, number as int)),
    {
        let mut cursor = self.cursor();
        match cursor.get_header_with_hash(LookupKey::Number(number)) {
            Some((header, hash)) => Ok(Some(header.seal(hash))),
            None => Ok(None),
        }
    }

    /// The total difficulty stored at block number `num`.
    pub fn header_td_by_number(&self, num: BlockNumber) -> (r: ProviderResult<
        Option<TotalDifficulty>,
    >)
        ensures
            r == Ok::<Option<TotalDifficulty>, ProviderError>(
                total_difficulty_at(self.jar, num as int),
            ),
    {
        let mut cursor = self.cursor();
        Ok(cursor.get_total_difficulty(LookupKey::Number(num)))
    }

    /// The block hash stored at block number `number`.
    pub fn block_hash(&self, number: u64) -> (r: ProviderResult<Option<BlockHash>>)
        ensures
            r == Ok::<Option<BlockHash>, ProviderError>(hash_at(self.jar, number as int)),
    {
        let mut cursor = self.cursor();
        Ok(cursor.get_block_hash(LookupKey::Number(number)))
    }

    /// The block hashes present over `[start, end)`, in row-key order;
    /// absent rows are skipped.
    #[verifier::loop_isolation(false)]
    pub fn canonical_hashes_range(&self, start: BlockNumber, end: BlockNumber) -> (r:
        ProviderResult<Vec<BlockHash>>)
        ensures
            r matches Ok(v) && v@ == hashes_in(self.jar, start as int, end as int),
    {
        let a: u64 = start;
        let b: u64 = end;
        let lo: u64 = if a > self.jar.start {
            a
        } else {
            self.jar.start
        };
        let len64: u64 = self.jar.rows.len() as u64;
        let off: u64 = lo - self.jar.start;
        let avail: u64 = if off < len64 {
            len64 - off
        } else {
            0
        };
        let span: u64 = if b > lo {
            b - lo
        } else {
            0
        };
        let count: u64 = if span < avail {
            span
        } else {
            avail
        };
        let ghost f = hash_fn(self.jar);
        proof {
            assert forall|k: int| a <= k < lo implies #[trigger] f(k) is None by {
                assert(row_at(self.jar, k) is None);
            };
            lemma_collect_present_absent_prefix(f, a as int, lo as int, lo as int);
            assert(collect_present(f, lo as int, lo as int) =~= Seq::<BlockHash>::empty());
        }
        let mut cursor = self.cursor();
        let mut out: Vec<BlockHash> = Vec::new();
        let mut j: u64 = 0;
        while j < count
            invariant
                j <= count,
                cursor.spec_jar() == self.jar,
                out@ == collect_present(f, a as int, lo as int + j as int),
            decreases count - j,
        {
            let k: u64 = lo + j;
            let got = cursor.get_block_hash(LookupKey::Number(k));
            proof {
                lemma_collect_present_snoc(f, a as int, lo as int + j as int + 1);
                assert(f(lo as int + j as int) == hash_at(self.jar, k as int));
            }
            match got {
                Some(hash) => out.push(hash),
                None => {},
            }
            j = j + 1;
        }
        proof {
            let hi = lo as int + count as int;
            if hi <= b as int {
                assert forall|k: int| hi <= k < b as int implies #[trigger] f(k) is None by {
                    assert(row_at(self.jar, k) is None);
                };
                lemma_collect_present_absent_suffix(f, a as int, hi, b as int);
            } else {
                if a < b {
                    assert forall|k: int| a <= k < b as int implies #[trigger] f(k) is None by {
                        assert(row_at(self.jar, k) is None);
                    };
                    lemma_collect_present_absent_suffix(f, a as int, a as int, b as int);
                    assert(collect_present(f, a as int, a as int) =~= Seq::<BlockHash>::empty());
                } else {
                    assert(collect_present(f, a as int, b as int) =~= Seq::<BlockHash>::empty());
                }
            }
        }
        Ok(out)
    }

    /// Live chain-head information; unanswerable from an immutable
    /// segment, so the caller must fall back to the live store.
    pub fn chain_info(&self) -> (r: ProviderResult<ChainInfo>)
        ensures
            r == Err::<ChainInfo, ProviderError>(ProviderError::UnsupportedProvider),
    {
        Err(ProviderError::UnsupportedProvider)
    }

    /// The live best block number; unanswerable from an immutable segment.
    pub fn best_block_number(&self) -> (r: ProviderResult<BlockNumber>)
        ensures
            r == Err::<BlockNumber, ProviderError>(ProviderError::UnsupportedProvider),
    {
        Err(ProviderError::UnsupportedProvider)
    }

    /// The live last block number; unanswerable from an immutable segment.
    pub fn last_block_number(&self) -> (r: ProviderResult<BlockNumber>)
        ensures
            r == Err::<BlockNumber, ProviderError>(ProviderError::UnsupportedProvider),
    {
        Err(ProviderError::UnsupportedProvider)
    }

    /// The block number of the block whose hash is `hash`: the row key
    /// the cursor was left at after a validated hash-keyed decode.
    pub fn block_number(&self, hash: BlockHash) -> (r: ProviderResult<Option<BlockNumber>>)
        ensures
            r == Ok::<Option<BlockNumber>, ProviderError>(block_number_of(self.jar, hash)),
    {
        let mut cursor = self.cursor();
        match cursor.get_block_hash(LookupKey::Hash(hash)) {
            Some(res) => if res == hash {
                Ok(Some(cursor.number()))
            } else {
                Ok(None)
            },
            None => Ok(None),
        }
    }

    /// The transaction number of the stored record whose materialized
    /// hash is `hash`; the hash is materialized only to perform this
    /// validation.
    pub fn transaction_id(&self, hash: TxHash) -> (r: ProviderResult<Option<TxNumber>>)
        ensures
            r == Ok::<Option<TxNumber>, ProviderError>(transaction_id_of(self.jar, hash)),
    {
        let mut cursor = self.cursor();
        match cursor.get_transaction(LookupKey::Hash(hash)) {
            Some(tx) => if tx.hash() == hash {
                Ok(Some(cursor.number()))
            } else {
                Ok(None)
            },
            None => Ok(None),
        }
    }

    /// The stored record at transaction number `num`, with its hash
    /// materialized for callers that expect a hash-bearing value.
    pub fn transaction_by_id(&self, num: TxNumber) -> (r: ProviderResult<
        Option<TransactionSigned>,
    >)
        ensures
            r == Ok::<Option<TransactionSigned>, ProviderError>(
                match transaction_at(self.jar, num as int) {
                    Some(t) => Some(
                        TransactionSigned { transaction: t, hash: spec_tx_hash(t) },
                    ),
                    None => None,
                },
            ),
    {
        let mut cursor = self.cursor();
        match cursor.get_transaction(LookupKey::Number(num)) {
            Some(tx) => Ok(Some(tx.with_hash())),
            None => Ok(None),
        }
    }

    /// The stored record at transaction number `num`, without
    /// materializing a hash: the cheaper path.
    pub fn transaction_by_id_no_hash(&self, num: TxNumber) -> (r: ProviderResult<
        Option<TransactionSignedNoHash>,
    >)
        ensures
            r == Ok::<Option<TransactionSignedNoHash>, ProviderError>(
                transaction_at(self.jar, num as int),
            ),
    {
        let mut cursor = self.cursor();
        Ok(cursor.get_transaction(LookupKey::Number(num)))
    }

    /// The hash-bearing transaction whose materialized hash is `hash`,
    /// resolved and validated like [`Self::transaction_id`].
    pub fn transaction_by_hash(&self, hash: TxHash) -> (r: ProviderResult<
        Option<TransactionSigned>,
    >)
        ensures
            r == Ok::<Option<TransactionSigned>, ProviderError>(
                transaction_by_hash_of(self.jar, hash),
            ),
    {
        let mut cursor = self.cursor();
        match cursor.get_transaction(LookupKey::Hash(hash)) {
            Some(tx) => if tx.hash() == hash {
                Ok(Some(tx.with_hash()))
            } else {
                Ok(None)
            },
            None => Ok(None),
        }
    }

    /// A transaction with its block placement; needs a
    /// transaction-to-block index a bare segment does not carry.
    pub fn transaction_by_hash_with_meta(&self, _hash: TxHash) -> (r: ProviderResult<
        Option<(TransactionSigned, TransactionMeta)>,
    >)
        ensures
            r == Err::<Option<(TransactionSigned, TransactionMeta)>, ProviderError>(
                ProviderError::UnsupportedProvider,
            ),
    {
        Err(ProviderError::UnsupportedProvider)
    }

    /// The block containing a transaction; needs a transaction-to-block
    /// index a bare segment does not carry.
    pub fn transaction_block(&self, _id: TxNumber) -> (r: ProviderResult<Option<BlockNumber>>)
        ensures
            r == Err::<Option<BlockNumber>, ProviderError>(ProviderError::UnsupportedProvider),
    {
        Err(ProviderError::UnsupportedProvider)
    }

    /// All transactions of a block; needs a block-to-transactions index.
    /// Callers should resolve a transaction-number range against the live
    /// store and use [`Self::transactions_by_tx_range`] instead.
    pub fn transactions_by_block(&self, _block_id: BlockHashOrNumber) -> (r: ProviderResult<
        Option<Vec<TransactionSigned>>,
    >)
        ensures
            r == Err::<Option<Vec<TransactionSigned>>, ProviderError>(
                ProviderError::UnsupportedProvider,
            ),
    {
        Err(ProviderError::UnsupportedProvider)
    }

    /// Transactions of a block-number range; needs a
    /// block-to-transactions index, like [`Self::transactions_by_block`].
    pub fn transactions_by_block_range(&self, _start: KeyBound, _end: KeyBound) -> (r:
        ProviderResult<Vec<Vec<TransactionSigned>>>)
        ensures
            r == Err::<Vec<Vec<TransactionSigned>>, ProviderError>(
                ProviderError::UnsupportedProvider,
            ),
    {
        Err(ProviderError::UnsupportedProvider)
    }

    /// The signers of every transaction present over the normalized
    /// range, recovered over the exact batch, all or nothing: one address
    /// per batch member in row-key order, or a validation error as soon
    /// as any member's signature admits no recovery. Partial results are
    /// never returned.
    pub fn senders_by_tx_range(&self, start: KeyBound, end: KeyBound) -> (r: ProviderResult<
        Vec<Address>,
    >)
        requires
            start matches KeyBound::Excluded(v) ==> v < u64::MAX,
            end matches KeyBound::Included(v) ==> v < u64::MAX,
        ensures
            ({
                let batch = transactions_in(self.jar, start_key_of(start), end_key_of(end));
                &&& (r is Ok <==> (forall|i: int|
                    0 <= i < batch.len() ==> spec_recoverable(#[trigger] batch[i])))
                &&& (r matches Ok(v) ==> v@ == spec_signers_of(batch))
                &&& (r is Err ==> r == Err::<Vec<Address>, ProviderError>(
                    ProviderError::SenderRecovery,
                ))
            }),
    {
        let txs = match self.transactions_by_tx_range(start, end) {
            Ok(t) => t,
            Err(e) => {
                return Err(e);
            },
        };
        let n: usize = txs.len();
        match TransactionSignedNoHash::recover_signers(&txs, n) {
            Some(addresses) => Ok(addresses),
            None => Err(ProviderError::SenderRecovery),
        }
    }

    /// The stored transactions present over the normalized range, in
    /// row-key order; absent rows are skipped.
    #[verifier::loop_isolation(false)]
    pub fn transactions_by_tx_range(&self, start: KeyBound, end: KeyBound) -> (r: ProviderResult<
        Vec<TransactionSignedNoHash>,
    >)
        requires
            start matches KeyBound::Excluded(v) ==> v < u64::MAX,
            end matches KeyBound::Included(v) ==> v < u64::MAX,
        ensures
            r matches Ok(v) && v@ == transactions_in(
                self.jar,
                start_key_of(start),
                end_key_of(end),
            ),
    {
        let range = to_range(start, end);
        let a: u64 = range.start;
        let b: u64 = range.end;
        let lo: u64 = if a > self.jar.start {
            a
        } else {
            self.jar.start
        };
        let len64: u64 = self.jar.rows.len() as u64;
        let off: u64 = lo - self.jar.start;
        let avail: u64 = if off < len64 {
            len64 - off
        } else {
            0
        };
        let span: u64 = if b > lo {
            b - lo
        } else {
            0
        };
        let count: u64 = if span < avail {
            span
        } else {
            avail
        };
        let ghost f = transaction_fn(self.jar);
        proof {
            assert forall|k: int| a <= k < lo implies #[trigger] f(k) is None by {
                assert(row_at(self.jar, k) is None);
            };
            lemma_collect_present_absent_prefix(f, a as int, lo as int, lo as int);
            assert(collect_present(f, lo as int, lo as int) =~= Seq::<
                TransactionSignedNoHash,
            >::empty());
        }
        let mut cursor = self.cursor();
        let mut out: Vec<TransactionSignedNoHash> = Vec::new();
        let mut j: u64 = 0;
        while j < count
            invariant
                j <= count,
                cursor.spec_jar() == self.jar,
                out@ == collect_present(f, a as int, lo as int + j as int),
            decreases count - j,
        {
            let k: u64 = lo + j;
            let got = cursor.get_transaction(LookupKey::Number(k));
            proof {
                lemma_collect_present_snoc(f, a as int, lo as int + j as int + 1);
                assert(f(lo as int + j as int) == transaction_at(self.jar, k as int));
            }
            match got {
                Some(tx) => out.push(tx),
                None => {},
            }
            j = j + 1;
        }
        proof {
            let hi = lo as int + count as int;
            if hi <= b as int {
                assert forall|k: int| hi <= k < b as int implies #[trigger] f(k) is None by {
                    assert(row_at(self.jar, k) is None);
                };
                lemma_collect_present_absent_suffix(f, a as int, hi, b as int);
            } else {
                if a < b {
                    assert forall|k: int| a <= k < b as int implies #[trigger] f(k) is None by {
                        assert(row_at(self.jar, k) is None);
                    };
                    lemma_collect_present_absent_suffix(f, a as int, a as int, b as int);
                    assert(collect_present(f, a as int, a as int) =~= Seq::<
                        TransactionSignedNoHash,
                    >::empty());
                } else {
                    assert(collect_present(f, a as int, b as int) =~= Seq::<
                        TransactionSignedNoHash,
                    >::empty());
                }
            }
        }
        Ok(out)
    }

    /// The signer of the single stored record at `num`, recovered
    /// individually; an absent row and a failed recovery both yield
    /// `None`. Unlike the batch path, this path tolerates failure by
    /// omission.
    pub fn transaction_sender(&self, num: TxNumber) -> (r: ProviderResult<Option<Address>>)
        ensures
            r == Ok::<Option<Address>, ProviderError>(
                match transaction_at(self.jar, num as int) {
                    Some(t) => spec_recover_signer(t),
                    None => None,
                },
            ),
    {
        let mut cursor = self.cursor();
        match cursor.get_transaction(LookupKey::Number(num)) {
            Some(tx) => Ok(tx.recover_signer()),
            None => Ok(None),
        }
    }

    /// The receipt stored at transaction number `num`.
    pub fn receipt(&self, num: TxNumber) -> (r: ProviderResult<Option<Receipt>>)
        ensures
            r == Ok::<Option<Receipt>, ProviderError>(receipt_at(self.jar, num as int)),
    {
        let mut cursor = self.cursor();
        Ok(cursor.get_receipt(LookupKey::Number(num)))
    }

    /// The receipt of the transaction whose hash is `hash`. A receipt
    /// segment carries no hash index of its own: the attached auxiliary
    /// transaction provider resolves the hash into a row key, and the
    /// receipt at that key is returned. With no auxiliary attached the
    /// answer is always `None`, even when such a transaction exists.
    pub fn receipt_by_hash(&self, hash: TxHash) -> (r: ProviderResult<Option<Receipt>>)
        ensures
            aux_of(*self) is None ==> r == Ok::<Option<Receipt>, ProviderError>(None),
            aux_of(*self) matches Some(aux) ==> r == Ok::<Option<Receipt>, ProviderError>(
                match transaction_id_of(aux.jar, hash) {
                    Some(num) => receipt_at(self.jar, num as int),
                    None => None,
                },
            ),
    {
        match &self.auxiliar_jar {
            Some(tx_snapshot) => match tx_snapshot.transaction_id(hash) {
                Ok(Some(num)) => self.receipt(num),
                Ok(None) => Ok(None),
                Err(e) => Err(e),
            },
            None => Ok(None),
        }
    }

    /// All receipts of a block; needs a block-to-transactions index.
    /// Callers should resolve the transaction-number range externally and
    /// query [`Self::receipt`] per member.
    pub fn receipts_by_block(&self, _block: BlockHashOrNumber) -> (r: ProviderResult<
        Option<Vec<Receipt>>,
    >)
        ensures
            r == Err::<Option<Vec<Receipt>>, ProviderError>(ProviderError::UnsupportedProvider),
    {
        Err(ProviderError::UnsupportedProvider)
    }
}

} // verus!

